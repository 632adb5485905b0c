//! The Racing Profile library: profiles kept in order of name then id, each
//! change stored through the host before it becomes visible.
use crate::errors::CoreError;
use crate::host::{
    CoreHost, PortableProfileApplication, PortableRacingProfile, PortableSupportingApplication,
    StorageFailure,
};
use crate::identifiers::{is_canonical_uuid, is_canonical_uuid_text, new_uuid};
use crate::model::{
    clone_strings, ApplicationRequirement, CloseSessionSettings, LaunchRecipe, LaunchRecipeView,
    LaunchSource, ProfileApplication, ProfileApplicationView, ProfileSummary, RacingProfile,
    RacingProfileView, SupportingApplication, SupportingApplicationView, supporting_views,
};
use crate::text::{is_blank, same_text, text_is_blank};
use vstd::prelude::*;

verus! {

/// The portable document version this library writes and reads.
pub const PORTABLE_PROFILE_SCHEMA_VERSION: u32 = 1;

/// Whether one text sorts before another, character by character.
pub open spec fn text_less(left: Seq<char>, right: Seq<char>) -> bool
    decreases left.len(),
{
    if left.len() == 0 {
        right.len() > 0
    } else if right.len() == 0 {
        false
    } else if left[0] < right[0] {
        true
    } else if left[0] > right[0] {
        false
    } else {
        text_less(left.drop_first(), right.drop_first())
    }
}

/// Sorting texts is transitive.
pub proof fn lemma_text_less_transitive(a: Seq<char>, b: Seq<char>, c: Seq<char>)
    requires
        text_less(a, b),
        text_less(b, c),
    ensures
        text_less(a, c),
    decreases a.len(),
{
    if a.len() > 0 && b.len() > 0 && c.len() > 0 && a[0] == b[0] && b[0] == c[0] {
        lemma_text_less_transitive(a.drop_first(), b.drop_first(), c.drop_first());
    }
}

/// No text sorts before itself.
pub proof fn lemma_text_less_irreflexive(a: Seq<char>)
    ensures
        !text_less(a, a),
    decreases a.len(),
{
    if a.len() > 0 {
        lemma_text_less_irreflexive(a.drop_first());
    }
}

/// Of two different texts, one sorts before the other.
pub proof fn lemma_text_less_total(a: Seq<char>, b: Seq<char>)
    requires
        a != b,
    ensures
        text_less(a, b) || text_less(b, a),
    decreases a.len(),
{
    if a.len() > 0 && b.len() > 0 && a[0] == b[0] {
        if a.drop_first() == b.drop_first() {
            assert(a =~= seq![a[0]] + a.drop_first());
            assert(b =~= seq![b[0]] + b.drop_first());
        }
        lemma_text_less_total(a.drop_first(), b.drop_first());
    } else if a.len() == 0 && b.len() == 0 {
        assert(a =~= b);
    }
}

/// Whether one text sorts before another.
pub fn text_is_less(left: &str, right: &str) -> (res: bool)
    ensures
        res == text_less(left@, right@),
{
    let left_chars = crate::text::chars_of(left);
    let right_chars = crate::text::chars_of(right);
    let mut index: usize = 0;
    assert(left_chars@.subrange(0, left_chars@.len() as int) =~= left_chars@);
    assert(right_chars@.subrange(0, right_chars@.len() as int) =~= right_chars@);
    while index < left_chars.len() && index < right_chars.len()
        invariant
            index <= left_chars@.len(),
            index <= right_chars@.len(),
            left_chars@ == left@,
            right_chars@ == right@,
            text_less(left_chars@, right_chars@) == text_less(
                left_chars@.subrange(index as int, left_chars@.len() as int),
                right_chars@.subrange(index as int, right_chars@.len() as int),
            ),
        decreases left_chars@.len() - index,
    {
        let a = left_chars[index];
        let b = right_chars[index];
        proof {
            let l = left_chars@.subrange(index as int, left_chars@.len() as int);
            let r = right_chars@.subrange(index as int, right_chars@.len() as int);
            assert(l[0] == a && r[0] == b);
            assert(l.len() > 0 && r.len() > 0);
            assert(text_less(l, r) == (a < b || (a == b && text_less(l.drop_first(), r.drop_first()))));
            assert(l.drop_first() =~= left_chars@.subrange(index + 1, left_chars@.len() as int));
            assert(r.drop_first() =~= right_chars@.subrange(index + 1, right_chars@.len() as int));
        }
        if a < b {
            return true;
        }
        if a > b {
            return false;
        }
        index = index + 1;
    }
    proof {
        let l = left_chars@.subrange(index as int, left_chars@.len() as int);
        let r = right_chars@.subrange(index as int, right_chars@.len() as int);
        assert(index == left_chars@.len() ==> l.len() == 0);
        assert(index == right_chars@.len() ==> r.len() == 0);
    }
    index == left_chars.len() && index < right_chars.len()
}

/// Whether one profile sorts before another: by name, then by id.
pub open spec fn profile_before(left: RacingProfileView, right: RacingProfileView) -> bool {
    text_less(left.name@, right.name@) || (left.name@ == right.name@ && text_less(left.id@, right.id@))
}

proof fn lemma_profile_before_transitive(a: RacingProfileView, b: RacingProfileView, c: RacingProfileView)
    requires
        profile_before(a, b),
        profile_before(b, c),
    ensures
        profile_before(a, c),
{
    if text_less(a.name@, b.name@) && text_less(b.name@, c.name@) {
        lemma_text_less_transitive(a.name@, b.name@, c.name@);
    } else if text_less(a.name@, b.name@) {
    } else if text_less(b.name@, c.name@) {
    } else {
        lemma_text_less_transitive(a.id@, b.id@, c.id@);
    }
}

/// Profiles in order: no profile sorts before an earlier one.
pub open spec fn profiles_sorted(profiles: Seq<RacingProfileView>) -> bool {
    forall|i: int, j: int| 0 <= i < j < profiles.len() ==> !profile_before(#[trigger] profiles[j], #[trigger] profiles[i])
}

/// A list in library order runs by name: no profile's name sorts after the name
/// of a profile listed later, and the id only orders profiles of the same name.
pub proof fn sorted_profiles_run_by_name_then_id(profiles: Seq<RacingProfileView>)
    requires
        profiles_sorted(profiles),
    ensures
        forall|i: int, j: int|
            0 <= i < j < profiles.len() ==> !text_less(#[trigger] profiles[j].name@, #[trigger] profiles[i].name@),
        forall|i: int, j: int|
            0 <= i < j < profiles.len() && profiles[i].name@ == profiles[j].name@ ==> !text_less(
                #[trigger] profiles[j].id@,
                #[trigger] profiles[i].id@,
            ),
{
    assert forall|i: int, j: int| 0 <= i < j < profiles.len() implies !text_less(
        #[trigger] profiles[j].name@,
        #[trigger] profiles[i].name@,
    ) by {
        assert(!profile_before(profiles[j], profiles[i]));
    }
    assert forall|i: int, j: int| 0 <= i < j < profiles.len() && profiles[i].name@ == profiles[j].name@ implies !text_less(
        #[trigger] profiles[j].id@,
        #[trigger] profiles[i].id@,
    ) by {
        assert(!profile_before(profiles[j], profiles[i]));
    }
}

/// Where a profile goes: before the first profile it sorts before.
pub open spec fn insertion_index(profiles: Seq<RacingProfileView>, profile: RacingProfileView, from: nat) -> nat
    decreases profiles.len() - from,
{
    if from >= profiles.len() {
        profiles.len()
    } else if profile_before(profile, profiles[from as int]) {
        from
    } else {
        insertion_index(profiles, profile, from + 1)
    }
}

/// The profiles with one more inserted in order.
pub open spec fn sorted_insert(profiles: Seq<RacingProfileView>, profile: RacingProfileView) -> Seq<RacingProfileView> {
    profiles.insert(insertion_index(profiles, profile, 0) as int, profile)
}

proof fn lemma_insertion_index(profiles: Seq<RacingProfileView>, profile: RacingProfileView, from: nat)
    requires
        from <= profiles.len(),
    ensures
        from <= insertion_index(profiles, profile, from) <= profiles.len(),
        forall|k: int| from <= k < insertion_index(profiles, profile, from) ==> !profile_before(profile, #[trigger] profiles[k]),
        insertion_index(profiles, profile, from) < profiles.len() ==> profile_before(
            profile,
            profiles[insertion_index(profiles, profile, from) as int],
        ),
    decreases profiles.len() - from,
{
    if from < profiles.len() && !profile_before(profile, profiles[from as int]) {
        lemma_insertion_index(profiles, profile, from + 1);
    }
}

/// Inserting in order keeps profiles in order.
pub proof fn sorted_insert_keeps_order(profiles: Seq<RacingProfileView>, profile: RacingProfileView)
    requires
        profiles_sorted(profiles),
    ensures
        profiles_sorted(sorted_insert(profiles, profile)),
        sorted_insert(profiles, profile).len() == profiles.len() + 1,
{
    lemma_insertion_index(profiles, profile, 0);
    let k = insertion_index(profiles, profile, 0) as int;
    let result = sorted_insert(profiles, profile);
    assert forall|i: int, j: int| 0 <= i < j < result.len() implies !profile_before(#[trigger] result[j], #[trigger] result[i]) by {
        if i < k && j < k {
            assert(result[i] == profiles[i] && result[j] == profiles[j]);
        } else if i < k && j == k {
            assert(result[i] == profiles[i]);
        } else if i < k {
            assert(result[i] == profiles[i] && result[j] == profiles[j - 1]);
        } else if i == k {
            assert(result[j] == profiles[j - 1]);
            if profile_before(profiles[j - 1], profile) {
                assert(profile_before(profile, profiles[k]));
                lemma_profile_before_transitive(profiles[j - 1], profile, profiles[k]);
                if k < j - 1 {
                    assert(!profile_before(profiles[j - 1], profiles[k]));
                } else {
                    lemma_text_less_irreflexive(profiles[k].name@);
                    lemma_text_less_irreflexive(profiles[k].id@);
                }
            }
        } else {
            assert(result[i] == profiles[i - 1] && result[j] == profiles[j - 1]);
        }
    }
}

/// Removing a profile keeps profiles in order.
pub proof fn remove_keeps_order(profiles: Seq<RacingProfileView>, index: int)
    requires
        profiles_sorted(profiles),
        0 <= index < profiles.len(),
    ensures
        profiles_sorted(profiles.remove(index)),
{
    let result = profiles.remove(index);
    assert forall|i: int, j: int| 0 <= i < j < result.len() implies !profile_before(#[trigger] result[j], #[trigger] result[i]) by {
        let oi = if i < index { i } else { i + 1 };
        let oj = if j < index { j } else { j + 1 };
        assert(result[i] == profiles[oi] && result[j] == profiles[oj]);
    }
}

/// The views of a list of profiles.
pub open spec fn profile_views(profiles: Seq<RacingProfile>) -> Seq<RacingProfileView> {
    profiles.map_values(|profile: RacingProfile| profile@)
}

/// The position of the first profile with this id.
pub open spec fn position_of(profiles: Seq<RacingProfileView>, profile_id: Seq<char>, from: nat) -> Option<nat>
    decreases profiles.len() - from,
{
    if from >= profiles.len() {
        None
    } else if profiles[from as int].id@ == profile_id {
        Some(from)
    } else {
        position_of(profiles, profile_id, from + 1)
    }
}

/// A profile listed at or after `from` is found from there.
pub proof fn lemma_position_found(profiles: Seq<RacingProfileView>, profile_id: Seq<char>, from: nat, at: int)
    requires
        from <= at < profiles.len(),
        profiles[at].id@ == profile_id,
    ensures
        position_of(profiles, profile_id, from) is Some,
    decreases profiles.len() - from,
{
    if profiles[from as int].id@ != profile_id {
        lemma_position_found(profiles, profile_id, from + 1, at);
    }
}

/// A profile inserted in order is found by its id.
pub proof fn lemma_sorted_insert_found(profiles: Seq<RacingProfileView>, profile: RacingProfileView)
    ensures
        position_of(sorted_insert(profiles, profile), profile.id@, 0) is Some,
{
    lemma_insertion_index(profiles, profile, 0);
    let at = insertion_index(profiles, profile, 0) as int;
    assert(sorted_insert(profiles, profile)[at] == profile);
    lemma_position_found(sorted_insert(profiles, profile), profile.id@, 0, at);
}

/// Where `position_of` finds a profile, the profile has that id.
pub proof fn lemma_position_has_id(profiles: Seq<RacingProfileView>, profile_id: Seq<char>, from: nat)
    ensures
        position_of(profiles, profile_id, from) matches Some(at) ==> from <= at < profiles.len() && profiles[at as int].id@
            == profile_id,
    decreases profiles.len() - from,
{
    if from < profiles.len() && profiles[from as int].id@ != profile_id {
        lemma_position_has_id(profiles, profile_id, from + 1);
    }
}

/// A profile inserted in order is in the result.
pub proof fn lemma_sorted_insert_contains(profiles: Seq<RacingProfileView>, profile: RacingProfileView)
    ensures
        sorted_insert(profiles, profile).contains(profile),
{
    lemma_insertion_index(profiles, profile, 0);
    let at = insertion_index(profiles, profile, 0) as int;
    assert(sorted_insert(profiles, profile)[at] == profile);
}

/// Which elevated applications a user approved for one profile.
struct ProfileApproval {
    profile_id: String,
    application_ids: Vec<String>,
}

/// Whether a list of approvals lets a profile run an application elevated.
spec fn approves(approvals: Seq<ProfileApproval>, profile_id: Seq<char>, application_id: Seq<char>) -> bool {
    exists|i: int, j: int|
        0 <= i < approvals.len() && 0 <= j < approvals[i].application_ids@.len()
            && (#[trigger] approvals[i]).profile_id@ == profile_id
            && (#[trigger] approvals[i].application_ids@[j])@ == application_id
}

/// The Racing Profiles, in order of name then id.
pub struct ProfileLibrary {
    profiles: Vec<RacingProfile>,
    approvals: Vec<ProfileApproval>,
    quarantined: Vec<String>,
}

impl View for ProfileLibrary {
    type V = Seq<RacingProfileView>;

    closed spec fn view(&self) -> Seq<RacingProfileView> {
        profile_views(self.profiles@)
    }
}

/// The profile a new one gets: the names given, an empty direct Launch Recipe
/// whose path needs repair, and nothing else.
pub open spec fn created_profile(profile: RacingProfileView, name: Seq<char>, primary_sim_name: Seq<char>) -> bool {
    &&& is_canonical_uuid(profile.id@)
    &&& is_canonical_uuid(profile.primary_sim.id@)
    &&& profile.name@ == name
    &&& profile.primary_sim.name@ == primary_sim_name
    &&& is_default_recipe(profile.primary_sim.launch_recipe)
    &&& profile.primary_sim.path_needs_repair
    &&& profile.supporting_applications.len() == 0
    &&& !profile.vr_enabled
    &&& profile.preferred_vr_launch_mode is None
    &&& !profile.close_session.stop_steam_vr
}

/// Whether a recipe is the default one: an empty direct path and default settings.
pub open spec fn is_default_recipe(recipe: LaunchRecipeView) -> bool {
    &&& recipe.source matches LaunchSource::DirectExecutable { executable_path } && executable_path@.len() == 0
    &&& recipe.arguments.len() == 0
    &&& recipe.working_directory is None
    &&& recipe.monitored_process is None
    &&& recipe.monitored_executable_path is None
    &&& recipe.shutdown_strategy == crate::model::ShutdownStrategyView::CloseWindows
    &&& recipe.console_visibility == crate::model::ConsoleVisibility::Visible
    &&& !recipe.elevated
    &&& recipe.startup_timeout_seconds == 30
    &&& recipe.post_start_delay_milliseconds == 0
}

/// Why a pair of profile names is refused, if it is.
pub open spec fn names_failure(name: Seq<char>, primary_sim_name: Seq<char>) -> Option<Seq<char>> {
    if is_blank(name) {
        Some("Racing Profile name"@)
    } else if is_blank(primary_sim_name) {
        Some("Primary Sim name"@)
    } else {
        None
    }
}

/// Whether an error is the blank-name error for this field.
pub open spec fn is_name_error(error: CoreError, field: Seq<char>) -> bool {
    error matches CoreError::InvalidProfileName(text) && text@ == field
}

/// Refuses blank profile or Primary Sim names.
pub fn validate_profile_names(name: &str, primary_sim_name: &str) -> (res: Result<(), CoreError>)
    ensures
        match names_failure(name@, primary_sim_name@) {
            Some(field) => res is Err && is_name_error(res->Err_0, field),
            None => res is Ok,
        },
{
    if text_is_blank(name) {
        return Err(CoreError::InvalidProfileName(String::from_str("Racing Profile name")));
    }
    if text_is_blank(primary_sim_name) {
        return Err(CoreError::InvalidProfileName(String::from_str("Primary Sim name")));
    }
    Ok(())
}

/// A storage failure as a core error.
pub open spec fn storage_error(failure: StorageFailure) -> CoreError {
    CoreError::Storage { message: failure.message, invalid_data: failure.invalid_data }
}

fn storage(failure: StorageFailure) -> (res: CoreError)
    ensures
        res == storage_error(failure),
{
    CoreError::Storage { message: failure.message, invalid_data: failure.invalid_data }
}

/// Whether an error is the not-found error for this profile id.
pub open spec fn is_not_found(error: CoreError, profile_id: Seq<char>) -> bool {
    error matches CoreError::ProfileNotFound(id) && id@ == profile_id
}

/// Whether a Supporting Application's name is blank in any entry.
pub open spec fn has_blank_supporting_name(applications: Seq<SupportingApplicationView>) -> bool {
    exists|index: int| 0 <= index < applications.len() && is_blank(#[trigger] applications[index].application.name@)
}

/// The portable form of a profile: everything but ids and repair marks.
pub open spec fn portable_view(profile: RacingProfileView) -> PortableView {
    PortableView {
        name: profile.name@,
        primary_sim: (profile.primary_sim.name@, profile.primary_sim.launch_recipe),
        supporting_applications: profile.supporting_applications.map_values(
            |supporting: SupportingApplicationView| (
                supporting.application.name@,
                supporting.application.launch_recipe,
                supporting.requirement,
                supporting.keep_running,
            ),
        ),
        vr_enabled: profile.vr_enabled,
        preferred_vr_launch_mode: profile.preferred_vr_launch_mode,
        close_session: profile.close_session,
    }
}

/// The abstract value of a portable Racing Profile.
pub struct PortableView {
    pub name: Seq<char>,
    pub primary_sim: (Seq<char>, LaunchRecipeView),
    pub supporting_applications: Seq<(Seq<char>, LaunchRecipeView, ApplicationRequirement, bool)>,
    pub vr_enabled: bool,
    pub preferred_vr_launch_mode: Option<crate::model::VrLaunchMode>,
    pub close_session: CloseSessionSettings,
}

/// The abstract value of a portable document.
pub open spec fn portable_document_view(document: PortableRacingProfile) -> PortableView {
    PortableView {
        name: document.name@,
        primary_sim: (document.primary_sim.name@, document.primary_sim.launch_recipe@),
        supporting_applications: document.supporting_applications@.map_values(
            |supporting: PortableSupportingApplication| (
                supporting.application.name@,
                supporting.application.launch_recipe@,
                supporting.requirement,
                supporting.keep_running,
            ),
        ),
        vr_enabled: document.vr_enabled,
        preferred_vr_launch_mode: document.preferred_vr_launch_mode,
        close_session: document.close_session,
    }
}

/// Whether an imported profile carries exactly the portable document's content.
pub open spec fn imported_from(profile: RacingProfileView, document: PortableView) -> bool {
    &&& portable_view(profile) == document
    &&& is_canonical_uuid(profile.id@)
    &&& is_canonical_uuid(profile.primary_sim.id@)
    &&& forall|index: int| 0 <= index < profile.supporting_applications.len() ==> is_canonical_uuid(
        #[trigger] profile.supporting_applications[index].application.id@,
    )
}

/// Whether a recipe's direct executable path is absent, as the host reported.
pub open spec fn recipe_is_direct(recipe: LaunchRecipeView) -> bool {
    recipe.source is DirectExecutable
}

impl ProfileLibrary {
    #[verifier::type_invariant]
    spec fn in_order(self) -> bool {
        profiles_sorted(profile_views(self.profiles@))
    }

    /// An empty library.
    pub fn new() -> (res: Self)
        ensures
            res@ == Seq::<RacingProfileView>::empty(),
    {
        let res = ProfileLibrary { profiles: Vec::new(), approvals: Vec::new(), quarantined: Vec::new() };
        assert(res@ =~= Seq::<RacingProfileView>::empty());
        res
    }

    fn insert_sorted(&mut self, profile: RacingProfile)
        ensures
            final(self)@ == sorted_insert(old(self)@, profile@),
            final(self)@.len() == old(self)@.len() + 1,
            profiles_sorted(final(self)@),
    {
        proof {
            use_type_invariant(&*self);
            lemma_insertion_index(self@, profile@, 0);
        }
        let mut index: usize = 0;
        let mut found = false;
        while !found && index < self.profiles.len()
            invariant
                index <= self.profiles@.len(),
                found ==> insertion_index(profile_views(self.profiles@), profile@, 0) == index as nat,
                !found ==> insertion_index(profile_views(self.profiles@), profile@, 0) == insertion_index(
                    profile_views(self.profiles@),
                    profile@,
                    index as nat,
                ),
            decreases self.profiles@.len() - index, (if found { 0int } else { 1int }),
        {
            let existing = &self.profiles[index];
            assert(profile_views(self.profiles@)[index as int] == existing@);
            let name_less = text_is_less(profile.name.as_str(), existing.name.as_str());
            let same_name = same_text(profile.name.as_str(), existing.name.as_str());
            let id_less = text_is_less(profile.id.as_str(), existing.id.as_str());
            if name_less || (same_name && id_less) {
                found = true;
            } else {
                index = index + 1;
            }
        }
        let ghost before = self@;
        proof {
            sorted_insert_keeps_order(before, profile@);
        }
        let ghost view = profile@;
        let mut profiles: Vec<RacingProfile> = Vec::new();
        std::mem::swap(&mut profiles, &mut self.profiles);
        profiles.insert(index, profile);
        assert(profile_views(profiles@) =~= sorted_insert(before, view));
        self.profiles = profiles;
    }

    /// Builds a library from stored profiles, putting them in order.
    pub fn from_profiles(profiles: Vec<RacingProfile>) -> (res: Self)
        ensures
            res@.len() == profiles@.len(),
            profiles_sorted(res@),
            res@.to_multiset() == profile_views(profiles@).to_multiset(),
            forall|i: int, j: int| 0 <= i < j < res@.len() ==> !text_less(#[trigger] res@[j].name@, #[trigger] res@[i].name@),
            forall|i: int, j: int|
                0 <= i < j < res@.len() && res@[i].name@ == res@[j].name@ ==> !text_less(
                    #[trigger] res@[j].id@,
                    #[trigger] res@[i].id@,
                ),
    {
        let mut library = ProfileLibrary::new();
        let mut remaining = profiles;
        let ghost total = remaining@.len();
        let ghost stored = profile_views(remaining@).to_multiset();
        proof {
            assert(library@ =~= Seq::<RacingProfileView>::empty());
            assert(library@.to_multiset() =~= vstd::multiset::Multiset::<RacingProfileView>::empty()) by {
                broadcast use vstd::seq_lib::group_to_multiset_ensures;
            }
        }
        while remaining.len() > 0
            invariant
                library@.len() + remaining@.len() == total,
                library@.to_multiset().add(profile_views(remaining@).to_multiset()) == stored,
            decreases remaining@.len(),
        {
            let ghost before_remaining = remaining@;
            let ghost before_library = library@;
            let profile = remaining.pop().unwrap();
            proof {
                assert(profile_views(before_remaining) =~= profile_views(remaining@).push(profile@));
                vstd::seq_lib::to_multiset_build(profile_views(remaining@), profile@);
                lemma_insertion_index(before_library, profile@, 0);
                vstd::seq_lib::to_multiset_insert(before_library, insertion_index(before_library, profile@, 0) as int, profile@);
            }
            library.insert_sorted(profile);
            proof {
                assert(library@.to_multiset() == before_library.to_multiset().insert(profile@));
                assert(library@.to_multiset().add(profile_views(remaining@).to_multiset()) =~= before_library.to_multiset().add(
                    profile_views(before_remaining).to_multiset(),
                ));
            }
        }
        proof {
            assert(profile_views(remaining@) =~= Seq::<RacingProfileView>::empty());
            assert(profile_views(remaining@).to_multiset() =~= vstd::multiset::Multiset::<RacingProfileView>::empty()) by {
                broadcast use vstd::seq_lib::group_to_multiset_ensures;
            }
            assert(library@.to_multiset() =~= library@.to_multiset().add(vstd::multiset::Multiset::<RacingProfileView>::empty()));
        }
        proof {
            use_type_invariant(&library);
            sorted_profiles_run_by_name_then_id(library@);
        }
        library
    }

    /// Copies of all profiles, in order.
    pub fn profiles(&self) -> (res: Vec<RacingProfile>)
        ensures
            profile_views(res@) == self@,
            forall|i: int, j: int| 0 <= i < j < res@.len() ==> !text_less(#[trigger] res@[j].name@, #[trigger] res@[i].name@),
            forall|i: int, j: int|
                0 <= i < j < res@.len() && res@[i].name@ == res@[j].name@ ==> !text_less(
                    #[trigger] res@[j].id@,
                    #[trigger] res@[i].id@,
                ),
    {
        proof {
            use_type_invariant(self);
            sorted_profiles_run_by_name_then_id(self@);
        }
        let mut copies: Vec<RacingProfile> = Vec::new();
        let mut index: usize = 0;
        while index < self.profiles.len()
            invariant
                index <= self.profiles@.len(),
                copies@.len() == index,
                forall|i: int| 0 <= i < index ==> (#[trigger] copies@[i])@ == self.profiles@[i]@,
            decreases self.profiles@.len() - index,
        {
            copies.push(self.profiles[index].clone());
            index = index + 1;
        }
        assert(profile_views(copies@) =~= profile_views(self.profiles@));
        proof {
            assert forall|i: int| 0 <= i < copies@.len() implies (#[trigger] copies@[i]).name@ == self@[i].name@
                && copies@[i].id@ == self@[i].id@ by {
                assert(profile_views(copies@)[i] == copies@[i]@);
            }
        }
        copies
    }

    /// The id, name and Primary Sim name of each profile, in order.
    pub fn summaries(&self) -> (res: Vec<ProfileSummary>)
        ensures
            res@.len() == self@.len(),
            forall|i: int|
                0 <= i < res@.len() ==> (#[trigger] res@[i]).id@ == self@[i].id@ && res@[i].name@ == self@[i].name@
                    && res@[i].primary_sim_name@ == self@[i].primary_sim.name@,
            forall|i: int, j: int| 0 <= i < j < res@.len() ==> !text_less(#[trigger] res@[j].name@, #[trigger] res@[i].name@),
            forall|i: int, j: int|
                0 <= i < j < res@.len() && res@[i].name@ == res@[j].name@ ==> !text_less(
                    #[trigger] res@[j].id@,
                    #[trigger] res@[i].id@,
                ),
    {
        proof {
            use_type_invariant(self);
            sorted_profiles_run_by_name_then_id(self@);
        }
        let mut summaries: Vec<ProfileSummary> = Vec::new();
        let mut index: usize = 0;
        while index < self.profiles.len()
            invariant
                index <= self.profiles@.len(),
                summaries@.len() == index,
                forall|i: int|
                    0 <= i < index ==> (#[trigger] summaries@[i]).id@ == self.profiles@[i].id@
                        && summaries@[i].name@ == self.profiles@[i].name@ && summaries@[i].primary_sim_name@
                        == self.profiles@[i].primary_sim.name@,
            decreases self.profiles@.len() - index,
        {
            let profile = &self.profiles[index];
            summaries.push(
                ProfileSummary {
                    id: profile.id.clone(),
                    name: profile.name.clone(),
                    primary_sim_name: profile.primary_sim.name.clone(),
                },
            );
            index = index + 1;
        }
        proof {
            assert forall|i: int| 0 <= i < summaries@.len() implies (#[trigger] summaries@[i]).name@ == self@[i].name@
                && summaries@[i].id@ == self@[i].id@ by {
                assert(self@[i] == self.profiles@[i]@);
            }
            assert forall|i: int, j: int| 0 <= i < j < summaries@.len() implies !text_less(
                #[trigger] summaries@[j].name@,
                #[trigger] summaries@[i].name@,
            ) by {
                assert(!text_less(self@[j].name@, self@[i].name@));
            }
            assert forall|i: int, j: int| 0 <= i < j < summaries@.len() && summaries@[i].name@ == summaries@[j].name@ implies !text_less(
                #[trigger] summaries@[j].id@,
                #[trigger] summaries@[i].id@,
            ) by {
                assert(!text_less(self@[j].id@, self@[i].id@));
            }
        }
        summaries
    }

    /// The number of configured applications: each profile's Primary Sim and
    /// Supporting Applications, capped at the largest `usize`.
    pub fn configured_application_count(&self) -> (res: usize)
        ensures
            res == (if application_count(self@) > usize::MAX { usize::MAX as int } else { application_count(self@) }),
    {
        let mut total: usize = 0;
        let mut saturated = false;
        let mut index: usize = 0;
        while index < self.profiles.len()
            invariant
                index <= self.profiles@.len(),
                saturated <==> application_count(profile_views(self.profiles@).subrange(0, index as int)) > usize::MAX,
                !saturated ==> total == application_count(profile_views(self.profiles@).subrange(0, index as int)),
                saturated ==> total == usize::MAX,
            decreases self.profiles@.len() - index,
        {
            let count = self.profiles[index].supporting_applications.len();
            proof {
                let part = profile_views(self.profiles@).subrange(0, index + 1);
                assert(part.drop_last() =~= profile_views(self.profiles@).subrange(0, index as int));
                assert(part.last().supporting_applications.len() == count);
                lemma_application_count_grows(profile_views(self.profiles@).subrange(0, index as int), part);
            }
            if !saturated {
                if count < usize::MAX - total {
                    total = total + count + 1;
                } else {
                    total = usize::MAX;
                    saturated = true;
                }
            }
            index = index + 1;
        }
        assert(profile_views(self.profiles@).subrange(0, index as int) =~= self@);
        total
    }

    /// The first profile, if any.
    pub fn selected_profile(&self) -> (res: Option<RacingProfile>)
        ensures
            self@.len() == 0 ==> res is None,
            self@.len() > 0 ==> res is Some && res->0@ == self@[0],
    {
        if self.profiles.len() == 0 {
            None
        } else {
            Some(self.profiles[0].clone())
        }
    }

    fn find(&self, profile_id: &str) -> (res: Option<usize>)
        ensures
            match res {
                Some(index) => position_of(self@, profile_id@, 0) == Some(index as nat) && index < self@.len(),
                None => position_of(self@, profile_id@, 0) is None,
            },
    {
        let mut index: usize = 0;
        while index < self.profiles.len()
            invariant
                index <= self.profiles@.len(),
                position_of(profile_views(self.profiles@), profile_id@, 0) == position_of(
                    profile_views(self.profiles@),
                    profile_id@,
                    index as nat,
                ),
            decreases self.profiles@.len() - index,
        {
            assert(profile_views(self.profiles@)[index as int] == self.profiles@[index as int]@);
            if same_text(self.profiles[index].id.as_str(), profile_id) {
                return Some(index);
            }
            index = index + 1;
        }
        None
    }

    /// Whether a canonical profile id names a stored profile.
    pub fn contains(&self, profile_id: &str) -> (res: bool)
        ensures
            res == (is_canonical_uuid(profile_id@) && position_of(self@, profile_id@, 0) is Some),
    {
        is_canonical_uuid_text(profile_id) && self.find(profile_id).is_some()
    }

    /// A copy of the first profile with this id.
    pub fn profile(&self, profile_id: &str) -> (res: Option<RacingProfile>)
        ensures
            match position_of(self@, profile_id@, 0) {
                Some(index) => res is Some && res->0@ == self@[index as int],
                None => res is None,
            },
    {
        match self.find(profile_id) {
            Some(index) => Some(self.profiles[index].clone()),
            None => None,
        }
    }

    /// The position of a profile named by a canonical id.
    fn index_of(&self, profile_id: &str) -> (res: Result<usize, CoreError>)
        ensures
            match res {
                Ok(index) => is_canonical_uuid(profile_id@) && position_of(self@, profile_id@, 0) == Some(index as nat)
                    && index < self@.len(),
                Err(error) => is_not_found(error, profile_id@) && !(is_canonical_uuid(profile_id@)
                    && position_of(self@, profile_id@, 0) is Some),
            },
    {
        if !is_canonical_uuid_text(profile_id) {
            return Err(CoreError::ProfileNotFound(profile_id.to_string()));
        }
        match self.find(profile_id) {
            Some(index) => Ok(index),
            None => Err(CoreError::ProfileNotFound(profile_id.to_string())),
        }
    }

    fn take_at(&mut self, index: usize) -> (res: RacingProfile)
        requires
            index < old(self)@.len(),
        ensures
            res@ == old(self)@[index as int],
            final(self)@ == old(self)@.remove(index as int),
    {
        proof {
            use_type_invariant(&*self);
            remove_keeps_order(self@, index as int);
        }
        let ghost before = self@;
        let mut profiles: Vec<RacingProfile> = Vec::new();
        std::mem::swap(&mut profiles, &mut self.profiles);
        let profile = profiles.remove(index);
        assert(profile_views(profiles@) =~= before.remove(index as int));
        self.profiles = profiles;
        profile
    }

    /// Creates a profile with the given names and an empty Launch Recipe.
    pub fn create<H: CoreHost>(&mut self, name: String, primary_sim_name: String, host: &mut H) -> (res: Result<String, CoreError>)
        ensures
            names_failure(name@, primary_sim_name@) is Some ==> res is Err && is_name_error(
                res->Err_0,
                names_failure(name@, primary_sim_name@)->0,
            ) && final(self)@ == old(self)@,
            res is Err && names_failure(name@, primary_sim_name@) is None ==> res->Err_0 is Storage
                && final(self)@ == old(self)@,
            res is Ok ==> names_failure(name@, primary_sim_name@) is None && exists|profile: RacingProfileView|
                created_profile(profile, name@, primary_sim_name@) && profile.id@ == res->Ok_0@
                    && final(self)@ == #[trigger] sorted_insert(old(self)@, profile),
    {
        validate_profile_names(name.as_str(), primary_sim_name.as_str())?;
        let id = new_uuid();
        let profile = RacingProfile {
            id: id.clone(),
            name,
            primary_sim: ProfileApplication {
                id: new_uuid(),
                name: primary_sim_name,
                launch_recipe: LaunchRecipe::default(),
                path_needs_repair: true,
            },
            supporting_applications: Vec::new(),
            vr_enabled: false,
            preferred_vr_launch_mode: None,
            close_session: CloseSessionSettings { stop_steam_vr: false },
        };
        match host.write_profile(&profile) {
            Ok(()) => {},
            Err(failure) => return Err(storage(failure)),
        }
        let ghost view = profile@;
        assert(supporting_views(profile.supporting_applications@) =~= Seq::<SupportingApplicationView>::empty());
        self.insert_sorted(profile);
        assert(created_profile(view, name@, primary_sim_name@));
        Ok(id)
    }

    /// Renames a profile and its Primary Sim.
    pub fn edit<H: CoreHost>(&mut self, profile_id: &str, name: String, primary_sim_name: String, host: &mut H) -> (res: Result<(), CoreError>)
        ensures
            res is Ok ==> names_failure(name@, primary_sim_name@) is None && is_canonical_uuid(profile_id@)
                && position_of(old(self)@, profile_id@, 0) is Some && ({
                let index = position_of(old(self)@, profile_id@, 0)->0 as int;
                let stored = old(self)@[index];
                final(self)@ == sorted_insert(
                    old(self)@.remove(index),
                    RacingProfileView {
                        name: name,
                        primary_sim: ProfileApplicationView { name: primary_sim_name, ..stored.primary_sim },
                        ..stored
                    },
                )
            }),
            res is Err ==> final(self)@ == old(self)@,
            names_failure(name@, primary_sim_name@) is Some ==> res is Err && is_name_error(
                res->Err_0,
                names_failure(name@, primary_sim_name@)->0,
            ),
            names_failure(name@, primary_sim_name@) is None && !(is_canonical_uuid(profile_id@) && position_of(
                old(self)@,
                profile_id@,
                0,
            ) is Some) ==> res is Err && is_not_found(res->Err_0, profile_id@),
            res is Err && names_failure(name@, primary_sim_name@) is None && is_canonical_uuid(profile_id@)
                && position_of(old(self)@, profile_id@, 0) is Some ==> res->Err_0 is Storage,
    {
        validate_profile_names(name.as_str(), primary_sim_name.as_str())?;
        let index = self.index_of(profile_id)?;
        let mut profile = self.profiles[index].clone();
        assert(profile@ == old(self)@[index as int]);
        profile.name = name;
        profile.primary_sim.name = primary_sim_name;
        match host.write_profile(&profile) {
            Ok(()) => {},
            Err(failure) => return Err(storage(failure)),
        }
        let _ = self.take_at(index);
        self.insert_sorted(profile);
        Ok(())
    }

    /// Deletes a profile.
    pub fn delete<H: CoreHost>(&mut self, profile_id: &str, host: &mut H) -> (res: Result<(), CoreError>)
        ensures
            res is Ok ==> is_canonical_uuid(profile_id@) && position_of(old(self)@, profile_id@, 0) is Some
                && final(self)@ == old(self)@.remove(position_of(old(self)@, profile_id@, 0)->0 as int),
            res is Err ==> final(self)@ == old(self)@,
            !(is_canonical_uuid(profile_id@) && position_of(old(self)@, profile_id@, 0) is Some) ==> res is Err
                && is_not_found(res->Err_0, profile_id@),
    {
        let index = self.index_of(profile_id)?;
        match host.remove_profile(profile_id) {
            Ok(()) => {},
            Err(failure) => return Err(storage(failure)),
        }
        let _ = self.take_at(index);
        self.forget_approvals(profile_id);
        Ok(())
    }

    fn forget_approvals(&mut self, profile_id: &str)
        ensures
            final(self)@ == old(self)@,
            forall|other: Seq<char>, application_id: Seq<char>|
                #[trigger] final(self).approved(other, application_id) == (other != profile_id@ && old(self).approved(
                    other,
                    application_id,
                )),
    {
        proof {
            use_type_invariant(&*self);
        }
        let mut kept: Vec<ProfileApproval> = Vec::new();
        let mut approvals: Vec<ProfileApproval> = Vec::new();
        std::mem::swap(&mut approvals, &mut self.approvals);
        let ghost original = approvals@;
        while approvals.len() > 0
            invariant
                approvals@ == original.subrange(0, approvals@.len() as int),
                approvals@.len() <= original.len(),
                forall|other: Seq<char>, application_id: Seq<char>|
                    #[trigger] approves(kept@, other, application_id) ==> other != profile_id@ && approves(
                        original,
                        other,
                        application_id,
                    ),
                forall|other: Seq<char>, application_id: Seq<char>|
                    #[trigger] approves(original, other, application_id) && other != profile_id@ ==> approves(
                        kept@,
                        other,
                        application_id,
                    ) || approves(approvals@, other, application_id),
            decreases approvals@.len(),
        {
            let ghost before_kept = kept@;
            let ghost before_left = approvals@;
            let approval = approvals.pop().unwrap();
            let ghost last = before_left.len() - 1;
            let keep = !same_text(approval.profile_id.as_str(), profile_id);
            if keep {
                kept.push(approval);
            }
            proof {
                assert(before_left[last] == approval);
                assert(approvals@ =~= original.subrange(0, approvals@.len() as int));
                assert forall|other: Seq<char>, application_id: Seq<char>|
                    #[trigger] approves(kept@, other, application_id) implies other != profile_id@ && approves(
                        original,
                        other,
                        application_id,
                    ) by {
                    let (i, j) = choose|i: int, j: int|
                        0 <= i < kept@.len() && 0 <= j < kept@[i].application_ids@.len()
                            && (#[trigger] kept@[i]).profile_id@ == other
                            && (#[trigger] kept@[i].application_ids@[j])@ == application_id;
                    if i < before_kept.len() {
                        assert(before_kept[i] == kept@[i]);
                        assert(approves(before_kept, other, application_id));
                    } else {
                        assert(kept@[i] == approval);
                        assert(original[last] == approval);
                        assert(original[last].application_ids@[j] == kept@[i].application_ids@[j]);
                    }
                }
                assert forall|other: Seq<char>, application_id: Seq<char>|
                    #[trigger] approves(original, other, application_id) && other != profile_id@ implies approves(
                        kept@,
                        other,
                        application_id,
                    ) || approves(approvals@, other, application_id) by {
                    if approves(before_kept, other, application_id) {
                        let (i, j) = choose|i: int, j: int|
                            0 <= i < before_kept.len() && 0 <= j < before_kept[i].application_ids@.len()
                                && (#[trigger] before_kept[i]).profile_id@ == other
                                && (#[trigger] before_kept[i].application_ids@[j])@ == application_id;
                        assert(kept@[i] == before_kept[i]);
                        assert(kept@[i].application_ids@[j] == before_kept[i].application_ids@[j]);
                    } else {
                        assert(approves(before_left, other, application_id));
                        let (i, j) = choose|i: int, j: int|
                            0 <= i < before_left.len() && 0 <= j < before_left[i].application_ids@.len()
                                && (#[trigger] before_left[i]).profile_id@ == other
                                && (#[trigger] before_left[i].application_ids@[j])@ == application_id;
                        if i < last {
                            assert(approvals@[i] == before_left[i]);
                            assert(approvals@[i].application_ids@[j] == before_left[i].application_ids@[j]);
                        } else {
                            assert(keep);
                            let k = kept@.len() - 1;
                            assert(kept@[k] == approval);
                            assert(kept@[k].application_ids@[j] == before_left[i].application_ids@[j]);
                        }
                    }
                }
            }
        }
        self.approvals = kept;
        proof {
            assert forall|other: Seq<char>, application_id: Seq<char>|
                #[trigger] self.approved(other, application_id) == (other != profile_id@ && old(self).approved(
                    other,
                    application_id,
                )) by {
                assert(old(self).approvals@ == original);
                if approves(approvals@, other, application_id) {
                    let (i, j) = choose|i: int, j: int|
                        0 <= i < approvals@.len() && 0 <= j < approvals@[i].application_ids@.len()
                            && (#[trigger] approvals@[i]).profile_id@ == other
                            && (#[trigger] approvals@[i].application_ids@[j])@ == application_id;
                }
            }
        }
    }

    fn fresh_supporting_ids(applications: &Vec<SupportingApplication>) -> (res: Vec<SupportingApplication>)
        ensures
            res@.len() == applications@.len(),
            forall|i: int|
                0 <= i < res@.len() ==> {
                    &&& is_canonical_uuid((#[trigger] res@[i])@.application.id@)
                    &&& res@[i]@ == (SupportingApplicationView {
                        application: ProfileApplicationView {
                            id: res@[i]@.application.id,
                            ..applications@[i]@.application
                        },
                        ..applications@[i]@
                    })
                },
    {
        let mut copies: Vec<SupportingApplication> = Vec::new();
        let mut index: usize = 0;
        while index < applications.len()
            invariant
                index <= applications@.len(),
                copies@.len() == index,
                forall|i: int|
                    0 <= i < index ==> {
                        &&& is_canonical_uuid((#[trigger] copies@[i])@.application.id@)
                        &&& copies@[i]@ == (SupportingApplicationView {
                            application: ProfileApplicationView {
                                id: copies@[i]@.application.id,
                                ..applications@[i]@.application
                            },
                            ..applications@[i]@
                        })
                    },
            decreases applications@.len() - index,
        {
            let mut copy = applications[index].clone();
            copy.application.id = new_uuid();
            copies.push(copy);
            index = index + 1;
        }
        copies
    }

    /// Copies a profile under a new name, with new ids for it and its applications.
    pub fn duplicate<H: CoreHost>(&mut self, source_profile_id: &str, name: String, host: &mut H) -> (res: Result<String, CoreError>)
        ensures
            res is Err ==> final(self)@ == old(self)@,
            !(is_canonical_uuid(source_profile_id@) && position_of(old(self)@, source_profile_id@, 0) is Some) ==> res is Err
                && is_not_found(res->Err_0, source_profile_id@),
            res is Ok ==> is_canonical_uuid(source_profile_id@) && position_of(old(self)@, source_profile_id@, 0) is Some
                && ({
                let source = old(self)@[position_of(old(self)@, source_profile_id@, 0)->0 as int];
                exists|copy: RacingProfileView| {
                    &&& #[trigger] sorted_insert(old(self)@, copy) == final(self)@
                    &&& copy.id@ == res->Ok_0@
                    &&& is_canonical_uuid(copy.id@)
                    &&& is_canonical_uuid(copy.primary_sim.id@)
                    &&& copy.name@ == name@
                    &&& portable_view(copy) == PortableView { name: name@, ..portable_view(source) }
                }
            }),
    {
        let index = self.index_of(source_profile_id)?;
        let source = self.profiles[index].clone();
        validate_profile_names(name.as_str(), source.primary_sim.name.as_str())?;
        let id = new_uuid();
        let mut primary_sim = source.primary_sim.clone();
        primary_sim.id = new_uuid();
        let copy = RacingProfile {
            id: id.clone(),
            name,
            primary_sim,
            supporting_applications: Self::fresh_supporting_ids(&source.supporting_applications),
            vr_enabled: source.vr_enabled,
            preferred_vr_launch_mode: source.preferred_vr_launch_mode,
            close_session: source.close_session,
        };
        match host.write_profile(&copy) {
            Ok(()) => {},
            Err(failure) => return Err(storage(failure)),
        }
        let ghost view = copy@;
        proof {
            assert(portable_view(view).supporting_applications =~= portable_view(source@).supporting_applications);
        }
        self.insert_sorted(copy);
        Ok(id)
    }

    fn contains_id(ids: &Vec<String>, id: &str) -> (res: bool)
        ensures
            res == exists|i: int| 0 <= i < ids@.len() && (#[trigger] ids@[i])@ == id@,
    {
        let mut index: usize = 0;
        while index < ids.len()
            invariant
                index <= ids@.len(),
                forall|earlier: int| 0 <= earlier < index ==> (#[trigger] ids@[earlier])@ != id@,
            decreases ids@.len() - index,
        {
            if same_text(ids[index].as_str(), id) {
                return true;
            }
            index = index + 1;
        }
        false
    }

    /// Saves an edited profile over the stored one with its id.
    ///
    /// The Primary Sim keeps its stored id. A Supporting Application keeps its
    /// id only when the stored profile has it and no earlier entry kept it;
    /// otherwise it gets a new one. Paths are checked for repair again.
    pub fn save<H: CoreHost>(&mut self, profile: RacingProfile, host: &mut H) -> (res: Result<(), CoreError>)
        ensures
            names_failure(profile.name@, profile.primary_sim.name@) is Some ==> res is Err && is_name_error(
                res->Err_0,
                names_failure(profile.name@, profile.primary_sim.name@)->0,
            ),
            names_failure(profile.name@, profile.primary_sim.name@) is None && has_blank_supporting_name(
                profile@.supporting_applications,
            ) ==> res is Err && is_name_error(res->Err_0, "Supporting Application name"@),
            names_failure(profile.name@, profile.primary_sim.name@) is None && !has_blank_supporting_name(
                profile@.supporting_applications,
            ) && !(is_canonical_uuid(profile.id@) && position_of(old(self)@, profile.id@, 0) is Some) ==> res is Err
                && is_not_found(res->Err_0, profile.id@),
            res is Err && names_failure(profile.name@, profile.primary_sim.name@) is None && !has_blank_supporting_name(
                profile@.supporting_applications,
            ) && is_canonical_uuid(profile.id@) && position_of(old(self)@, profile.id@, 0) is Some ==> res->Err_0 is Storage,
            res is Err ==> final(self)@ == old(self)@,
            res is Ok ==> {
                &&& names_failure(profile.name@, profile.primary_sim.name@) is None
                &&& !has_blank_supporting_name(profile@.supporting_applications)
                &&& is_canonical_uuid(profile.id@)
                &&& position_of(old(self)@, profile.id@, 0) is Some
                &&& exists|saved: RacingProfileView| {
                    &&& saved_from(saved, profile@, old(self)@[position_of(old(self)@, profile.id@, 0)->0 as int])
                    &&& #[trigger] sorted_insert(
                        old(self)@.remove(position_of(old(self)@, profile.id@, 0)->0 as int),
                        saved,
                    ) == final(self)@
                }
            },
    {
        validate_profile_names(profile.name.as_str(), profile.primary_sim.name.as_str())?;
        let mut blank_check: usize = 0;
        while blank_check < profile.supporting_applications.len()
            invariant
                blank_check <= profile.supporting_applications@.len(),
                names_failure(profile.name@, profile.primary_sim.name@) is None,
                forall|earlier: int| 0 <= earlier < blank_check ==> !is_blank(
                    (#[trigger] profile@.supporting_applications[earlier]).application.name@,
                ),
            decreases profile.supporting_applications@.len() - blank_check,
        {
            assert(profile@.supporting_applications[blank_check as int] == profile.supporting_applications@[blank_check as int]@);
            if text_is_blank(profile.supporting_applications[blank_check].application.name.as_str()) {
                assert(profile@.supporting_applications[blank_check as int].application.name
                    == profile.supporting_applications@[blank_check as int].application.name);
                assert(is_blank(profile@.supporting_applications[blank_check as int].application.name@));
                assert(has_blank_supporting_name(profile@.supporting_applications));
                return Err(CoreError::InvalidProfileName(String::from_str("Supporting Application name")));
            }
            blank_check = blank_check + 1;
        }
        let index = self.index_of(profile.id.as_str())?;
        let stored = self.profiles[index].clone();
        assert(stored@ == old(self)@[index as int]);
        let ghost input = profile@;
        let RacingProfile {
            id,
            name,
            primary_sim,
            supporting_applications: incoming,
            vr_enabled,
            preferred_vr_launch_mode,
            close_session,
        } = profile;
        let primary_repair = Self::path_needs_repair(&primary_sim.launch_recipe, host);
        let primary = ProfileApplication {
            id: stored.primary_sim.id.clone(),
            name: primary_sim.name,
            launch_recipe: primary_sim.launch_recipe,
            path_needs_repair: primary_repair,
        };
        let mut stored_ids: Vec<String> = Vec::new();
        let mut position: usize = 0;
        while position < stored.supporting_applications.len()
            invariant
                position <= stored.supporting_applications@.len(),
                stored_ids@.len() == position,
                forall|k: int| 0 <= k < position ==> (#[trigger] stored_ids@[k])@ == stored@.supporting_applications[k].application.id@,
            decreases stored.supporting_applications@.len() - position,
        {
            assert(stored@.supporting_applications[position as int] == stored.supporting_applications@[position as int]@);
            stored_ids.push(stored.supporting_applications[position].application.id.clone());
            position = position + 1;
        }
        let ghost blank_free = !has_blank_supporting_name(input.supporting_applications);
        assert(blank_free);
        let mut retained: Vec<String> = Vec::new();
        let mut supporting: Vec<SupportingApplication> = Vec::new();
        let mut taken: usize = 0;
        while taken < incoming.len()
            invariant
                taken <= incoming@.len(),
                supporting@.len() == taken,
                retained@.len() == taken,
                forall|k: int| 0 <= k < taken ==> (#[trigger] retained@[k])@ == supporting@[k]@.application.id@,
                stored_ids@.len() == stored@.supporting_applications.len(),
                forall|k: int| 0 <= k < stored_ids@.len() ==> (#[trigger] stored_ids@[k])@ == stored@.supporting_applications[k].application.id@,
                forall|k: int|
                    0 <= k < taken ==> supporting_saved_from(
                        (#[trigger] supporting@[k])@,
                        incoming@[k]@,
                        stored@.supporting_applications,
                        supporting_views(supporting@).subrange(0, k),
                    ),
            decreases incoming@.len() - taken,
        {
            let entry = &incoming[taken];
            let incoming_id = entry.application.id.as_str();
            let keep = Self::contains_id(&stored_ids, incoming_id) && !Self::contains_id(&retained, incoming_id);
            let assigned = if keep {
                entry.application.id.clone()
            } else {
                new_uuid()
            };
            let repair = Self::path_needs_repair(&entry.application.launch_recipe, host);
            let saved = SupportingApplication {
                application: ProfileApplication {
                    id: assigned.clone(),
                    name: entry.application.name.clone(),
                    launch_recipe: entry.application.launch_recipe.clone(),
                    path_needs_repair: repair,
                },
                requirement: entry.requirement,
                keep_running: entry.keep_running,
            };
            retained.push(assigned);
            let ghost before = supporting_views(supporting@);
            supporting.push(saved);
            proof {
                assert(supporting_views(supporting@).subrange(0, taken as int) =~= before);
                assert forall|k: int| 0 <= k <= taken implies #[trigger] supporting_views(supporting@).subrange(0, k)
                    == before.subrange(0, k) by {
                    assert(supporting_views(supporting@).subrange(0, k) =~= before.subrange(0, k));
                }
                if keep {
                    let k = choose|k: int| 0 <= k < stored_ids@.len() && (#[trigger] stored_ids@[k])@ == incoming_id@;
                    assert(stored@.supporting_applications[k].application.id@ == incoming@[taken as int]@.application.id@);
                    if has_supporting_id(before, incoming_id@) {
                        let j = choose|j: int| 0 <= j < before.len() && (#[trigger] before[j]).application.id@ == incoming_id@;
                        assert(retained@[j]@ == incoming_id@);
                    }
                }
            }
            taken = taken + 1;
        }
        let saved_profile = RacingProfile {
            id,
            name,
            primary_sim: primary,
            supporting_applications: supporting,
            vr_enabled,
            preferred_vr_launch_mode,
            close_session,
        };
        match host.write_profile(&saved_profile) {
            Ok(()) => {},
            Err(failure) => return Err(storage(failure)),
        }
        let ghost view = saved_profile@;
        assert(saved_from(view, input, old(self)@[index as int]));
        assert(!has_blank_supporting_name(input.supporting_applications));
        assert(input == profile@);
        let _ = self.take_at(index);
        self.insert_sorted(saved_profile);
        proof {
            assert(position_of(old(self)@, input.id@, 0) == Some(index as nat));
            assert(sorted_insert(old(self)@.remove(index as int), view) == self@);
            assert(names_failure(input.name@, input.primary_sim.name@) is None);
            assert(is_canonical_uuid(input.id@));
            assert(saved_from(view, input, old(self)@[position_of(old(self)@, input.id@, 0)->0 as int]));
        }
        Ok(())
    }

    /// The application ids approved to run elevated, per profile id.
    pub closed spec fn approved(&self, profile_id: Seq<char>, application_id: Seq<char>) -> bool {
        approves(self.approvals@, profile_id, application_id)
    }

    /// Whether an imported profile is still in Native Launch Quarantine: it
    /// was imported and has not been approved since.
    pub closed spec fn quarantined(&self, profile_id: Seq<char>) -> bool {
        exists|i: int| 0 <= i < self.quarantined@.len() && (#[trigger] self.quarantined@[i])@ == profile_id
    }

    /// Whether a stored profile waits for review: it is an imported profile not
    /// approved yet, or it runs an application elevated that nobody approved.
    /// Such a profile starts no Session.
    pub open spec fn in_review(&self, profile_id: Seq<char>) -> bool {
        self.quarantined(profile_id) || self.elevation_unapproved(profile_id)
    }

    /// Whether a stored profile runs an application elevated that nobody
    /// approved.
    pub open spec fn elevation_unapproved(&self, profile_id: Seq<char>) -> bool {
        exists|k: int|
            0 <= k < profile_application_views(self@[position_of(self@, profile_id, 0)->0 as int]).len()
                && (#[trigger] profile_application_views(self@[position_of(self@, profile_id, 0)->0 as int])[k]).launch_recipe.elevated
                && !self.approved(profile_id, profile_application_views(self@[position_of(self@, profile_id, 0)->0 as int])[k].id@)
    }

    fn is_approved(&self, profile_id: &str, application_id: &str) -> (res: bool)
        ensures
            res == self.approved(profile_id@, application_id@),
    {
        let mut i: usize = 0;
        while i < self.approvals.len()
            invariant
                i <= self.approvals@.len(),
                forall|a: int, b: int|
                    0 <= a < i && 0 <= b < self.approvals@[a].application_ids@.len() ==> !((#[trigger] self.approvals@[a]).profile_id@
                        == profile_id@ && (#[trigger] self.approvals@[a].application_ids@[b])@ == application_id@),
            decreases self.approvals@.len() - i,
        {
            let approval = &self.approvals[i];
            if same_text(approval.profile_id.as_str(), profile_id) {
                let mut j: usize = 0;
                while j < approval.application_ids.len()
                    invariant
                        j <= approval.application_ids@.len(),
                        i < self.approvals@.len(),
                        approval == self.approvals@[i as int],
                        approval.profile_id@ == profile_id@,
                        forall|b: int| 0 <= b < j ==> (#[trigger] approval.application_ids@[b])@ != application_id@,
                    decreases approval.application_ids@.len() - j,
                {
                    if same_text(approval.application_ids[j].as_str(), application_id) {
                        assert(self.approvals@[i as int].application_ids@[j as int]@ == application_id@);
                        return true;
                    }
                    j = j + 1;
                }
            }
            i = i + 1;
        }
        false
    }

    fn is_quarantined(&self, profile_id: &str) -> (res: bool)
        ensures
            res == self.quarantined(profile_id@),
    {
        let mut i: usize = 0;
        while i < self.quarantined.len()
            invariant
                i <= self.quarantined@.len(),
                forall|e: int| 0 <= e < i ==> (#[trigger] self.quarantined@[e])@ != profile_id@,
            decreases self.quarantined@.len() - i,
        {
            if same_text(self.quarantined[i].as_str(), profile_id) {
                return true;
            }
            i = i + 1;
        }
        false
    }

    /// Whether a profile waits for review: imported and not approved yet, or
    /// with an elevated application that is not approved yet.
    pub fn requires_review(&self, profile_id: &str) -> (res: Result<bool, CoreError>)
        ensures
            !(is_canonical_uuid(profile_id@) && position_of(self@, profile_id@, 0) is Some) ==> res is Err
                && is_not_found(res->Err_0, profile_id@),
            is_canonical_uuid(profile_id@) && position_of(self@, profile_id@, 0) is Some ==> res is Ok,
            res is Ok ==> res->Ok_0 == self.in_review(profile_id@),
    {
        let index = self.index_of(profile_id)?;
        if self.is_quarantined(profile_id) {
            return Ok(true);
        }
        let profile = &self.profiles[index];
        let ghost applications = profile_application_views(self@[index as int]);
        assert(profile@ == self@[index as int]);
        let mut k: usize = 0;
        while k < profile.supporting_applications.len()
            invariant
                k <= profile.supporting_applications@.len(),
                applications == profile_application_views(profile@),
                is_canonical_uuid(profile_id@),
                position_of(self@, profile_id@, 0) == Some(index as nat),
                index < self@.len(),
                profile@ == self@[index as int],
                forall|e: int| 0 <= e < k ==> !((#[trigger] applications[e]).launch_recipe.elevated && !self.approved(profile_id@, applications[e].id@)),
            decreases profile.supporting_applications@.len() - k,
        {
            let application = &profile.supporting_applications[k].application;
            assert(applications[k as int] == application@);
            if application.launch_recipe.elevated && !self.is_approved(profile_id, application.id.as_str()) {
                assert(applications[k as int].launch_recipe.elevated && !self.approved(profile_id@, applications[k as int].id@));
                return Ok(true);
            }
            k = k + 1;
        }
        let primary = &profile.primary_sim;
        assert(applications[k as int] == primary@);
        if primary.launch_recipe.elevated && !self.is_approved(profile_id, primary.id.as_str()) {
            assert(applications[k as int].launch_recipe.elevated && !self.approved(profile_id@, applications[k as int].id@));
            return Ok(true);
        }
        assert(applications.len() == k + 1);
        Ok(false)
    }

    /// Records which elevated applications of a reviewed profile may run elevated.
    pub fn approve(&mut self, profile_id: &str, configuration_reviewed: bool, approved_application_ids: &Vec<String>) -> (res: Result<(), CoreError>)
        ensures
            final(self)@ == old(self)@,
            !(is_canonical_uuid(profile_id@) && position_of(old(self)@, profile_id@, 0) is Some) ==> res is Err
                && is_not_found(res->Err_0, profile_id@),
            is_canonical_uuid(profile_id@) && position_of(old(self)@, profile_id@, 0) is Some && !configuration_reviewed
                ==> res is Err && res->Err_0 is InvalidProfileApproval,
            res is Ok ==> configuration_reviewed && forall|i: int|
                0 <= i < approved_application_ids@.len() ==> final(self).approved(profile_id@, (#[trigger] approved_application_ids@[i])@),
            res is Ok ==> !final(self).quarantined(profile_id@),
    {
        let index = self.index_of(profile_id)?;
        if !configuration_reviewed {
            return Err(CoreError::InvalidProfileApproval(String::from_str("every executable setting must be reviewed")));
        }
        let profile = &self.profiles[index];
        let mut i: usize = 0;
        while i < approved_application_ids.len()
            invariant
                i <= approved_application_ids@.len(),
                is_canonical_uuid(profile_id@),
                position_of(self@, profile_id@, 0) is Some,
                self@ == old(self)@,
                configuration_reviewed,
            decreases approved_application_ids@.len() - i,
        {
            let wanted = approved_application_ids[i].as_str();
            let mut elevated = profile.primary_sim.launch_recipe.elevated && same_text(profile.primary_sim.id.as_str(), wanted);
            let mut k: usize = 0;
            while k < profile.supporting_applications.len()
                invariant
                    k <= profile.supporting_applications@.len(),
                decreases profile.supporting_applications@.len() - k,
            {
                let application = &profile.supporting_applications[k].application;
                if application.launch_recipe.elevated && same_text(application.id.as_str(), wanted) {
                    elevated = true;
                }
                k = k + 1;
            }
            if !elevated {
                return Err(
                    CoreError::InvalidProfileApproval(
                        String::from_str("an approved application does not run elevated in this Racing Profile"),
                    ),
                );
            }
            i = i + 1;
        }
        proof {
            use_type_invariant(&*self);
        }
        let mut approvals: Vec<ProfileApproval> = Vec::new();
        std::mem::swap(&mut approvals, &mut self.approvals);
        let ghost before_profiles = self.profiles@;
        approvals.push(ProfileApproval { profile_id: profile_id.to_string(), application_ids: clone_strings(approved_application_ids) });
        let last = approvals.len() - 1;
        self.approvals = approvals;
        proof {
            assert forall|i: int| 0 <= i < approved_application_ids@.len() implies self.approved(profile_id@, (#[trigger] approved_application_ids@[i])@) by {
                assert(self.approvals@[last as int].application_ids@[i] == approved_application_ids@[i]);
            }
        }
        self.release_from_quarantine(profile_id);
        Ok(())
    }

    fn release_from_quarantine(&mut self, profile_id: &str)
        ensures
            final(self)@ == old(self)@,
            final(self).approvals == old(self).approvals,
            !final(self).quarantined(profile_id@),
    {
        proof {
            use_type_invariant(&*self);
        }
        let mut kept: Vec<String> = Vec::new();
        let mut index: usize = 0;
        while index < self.quarantined.len()
            invariant
                index <= self.quarantined@.len(),
                forall|e: int| 0 <= e < kept@.len() ==> (#[trigger] kept@[e])@ != profile_id@,
            decreases self.quarantined@.len() - index,
        {
            if !same_text(self.quarantined[index].as_str(), profile_id) {
                kept.push(self.quarantined[index].clone());
            }
            index = index + 1;
        }
        self.quarantined = kept;
    }

    fn path_needs_repair<H: CoreHost>(recipe: &LaunchRecipe, host: &mut H) -> (res: bool)
        ensures
            !(recipe.source is DirectExecutable) ==> !res,
    {
        match &recipe.source {
            LaunchSource::DirectExecutable { executable_path } => !host.executable_exists(executable_path.as_str()),
            LaunchSource::Steam { .. } => false,
        }
    }

    /// The portable form of a profile.
    pub fn portable(&self, profile_id: &str) -> (res: Result<PortableRacingProfile, CoreError>)
        ensures
            match position_of(self@, profile_id@, 0) {
                Some(index) => res is Ok && portable_document_view(res->Ok_0) == portable_view(self@[index as int])
                    && res->Ok_0.schema_version == PORTABLE_PROFILE_SCHEMA_VERSION,
                None => res is Err && is_not_found(res->Err_0, profile_id@),
            },
    {
        let index = match self.find(profile_id) {
            Some(index) => index,
            None => return Err(CoreError::ProfileNotFound(profile_id.to_string())),
        };
        let profile = &self.profiles[index];
        assert(profile@ == self@[index as int]);
        let mut supporting: Vec<PortableSupportingApplication> = Vec::new();
        let mut position: usize = 0;
        while position < profile.supporting_applications.len()
            invariant
                position <= profile.supporting_applications@.len(),
                supporting@.len() == position,
                forall|k: int|
                    0 <= k < position ==> {
                        &&& (#[trigger] supporting@[k]).application.name@
                            == profile.supporting_applications@[k].application.name@
                        &&& supporting@[k].application.launch_recipe@
                            == profile.supporting_applications@[k].application.launch_recipe@
                        &&& supporting@[k].requirement == profile.supporting_applications@[k].requirement
                        &&& supporting@[k].keep_running == profile.supporting_applications@[k].keep_running
                    },
            decreases profile.supporting_applications@.len() - position,
        {
            let entry = &profile.supporting_applications[position];
            supporting.push(
                PortableSupportingApplication {
                    application: PortableProfileApplication {
                        name: entry.application.name.clone(),
                        launch_recipe: entry.application.launch_recipe.clone(),
                    },
                    requirement: entry.requirement,
                    keep_running: entry.keep_running,
                },
            );
            position = position + 1;
        }
        let result = PortableRacingProfile {
            schema_version: PORTABLE_PROFILE_SCHEMA_VERSION,
            name: profile.name.clone(),
            primary_sim: PortableProfileApplication {
                name: profile.primary_sim.name.clone(),
                launch_recipe: profile.primary_sim.launch_recipe.clone(),
            },
            supporting_applications: supporting,
            vr_enabled: profile.vr_enabled,
            preferred_vr_launch_mode: profile.preferred_vr_launch_mode,
            close_session: profile.close_session,
        };
        assert(portable_document_view(result).supporting_applications =~= portable_view(
            profile@,
        ).supporting_applications);
        Ok(result)
    }

    /// Adds a profile read from a portable document, with new ids.
    pub fn import<H: CoreHost>(&mut self, portable: PortableRacingProfile, host: &mut H) -> (res: Result<String, CoreError>)
        ensures
            portable.schema_version != PORTABLE_PROFILE_SCHEMA_VERSION ==> res == Err::<String, CoreError>(
                CoreError::UnsupportedProfileSchema(portable.schema_version),
            ),
            res is Err ==> final(self)@ == old(self)@,
            portable.schema_version == PORTABLE_PROFILE_SCHEMA_VERSION && names_failure(
                portable.name@,
                portable.primary_sim.name@,
            ) is Some ==> res is Err && is_name_error(
                res->Err_0,
                names_failure(portable.name@, portable.primary_sim.name@)->0,
            ),
            portable.schema_version == PORTABLE_PROFILE_SCHEMA_VERSION && names_failure(portable.name@, portable.primary_sim.name@)
                is None && portable_name_is_blank(portable.supporting_applications@) ==> res is Err && is_name_error(
                res->Err_0,
                "Supporting Application name"@,
            ),
            res is Err && portable.schema_version == PORTABLE_PROFILE_SCHEMA_VERSION && names_failure(
                portable.name@,
                portable.primary_sim.name@,
            ) is None && !portable_name_is_blank(portable.supporting_applications@) ==> res->Err_0 is Storage,
            res is Ok ==> portable.schema_version == PORTABLE_PROFILE_SCHEMA_VERSION && names_failure(
                portable.name@,
                portable.primary_sim.name@,
            ) is None && !portable_name_is_blank(portable.supporting_applications@) && exists|profile: RacingProfileView| {
                &&& imported_from(profile, portable_document_view(portable))
                &&& profile.id@ == res->Ok_0@
                &&& #[trigger] sorted_insert(old(self)@, profile) == final(self)@
            },
            res is Ok ==> final(self).quarantined(res->Ok_0@),
    {
        if portable.schema_version != PORTABLE_PROFILE_SCHEMA_VERSION {
            return Err(CoreError::UnsupportedProfileSchema(portable.schema_version));
        }
        validate_profile_names(portable.name.as_str(), portable.primary_sim.name.as_str())?;
        let ghost document = portable_document_view(portable);
        let PortableRacingProfile {
            schema_version: _,
            name,
            primary_sim,
            supporting_applications: portable_supporting,
            vr_enabled,
            preferred_vr_launch_mode,
            close_session,
        } = portable;
        if has_blank_portable_name(&portable_supporting) {
            return Err(CoreError::InvalidProfileName(String::from_str("Supporting Application name")));
        }
        let id = new_uuid();
        let primary_repair = Self::path_needs_repair(&primary_sim.launch_recipe, host);
        let primary = ProfileApplication {
            id: new_uuid(),
            name: primary_sim.name,
            launch_recipe: primary_sim.launch_recipe,
            path_needs_repair: primary_repair,
        };
        let mut supporting: Vec<SupportingApplication> = Vec::new();
        let mut remaining = portable_supporting;
        let ghost all = remaining@;
        let mut taken: usize = 0;
        while taken < remaining.len()
            invariant
                remaining@ == all,
                taken <= all.len(),
                supporting@.len() == taken,
                forall|i: int|
                    0 <= i < taken ==> {
                        &&& is_canonical_uuid((#[trigger] supporting@[i])@.application.id@)
                        &&& supporting@[i]@.application.name@ == all[i].application.name@
                        &&& supporting@[i]@.application.launch_recipe == all[i].application.launch_recipe@
                        &&& supporting@[i]@.requirement == all[i].requirement
                        &&& supporting@[i]@.keep_running == all[i].keep_running
                    },
            decreases all.len() - taken,
        {
            let entry = &remaining[taken];
            let repair = Self::path_needs_repair(&entry.application.launch_recipe, host);
            supporting.push(
                SupportingApplication {
                    application: ProfileApplication {
                        id: new_uuid(),
                        name: entry.application.name.clone(),
                        launch_recipe: entry.application.launch_recipe.clone(),
                        path_needs_repair: repair,
                    },
                    requirement: entry.requirement,
                    keep_running: entry.keep_running,
                },
            );
            taken = taken + 1;
        }
        let profile = RacingProfile {
            id: id.clone(),
            name,
            primary_sim: primary,
            supporting_applications: supporting,
            vr_enabled,
            preferred_vr_launch_mode,
            close_session,
        };
        match host.write_profile(&profile) {
            Ok(()) => {},
            Err(failure) => return Err(storage(failure)),
        }
        let ghost view = profile@;
        proof {
            assert(portable_view(view).supporting_applications =~= document.supporting_applications);
            assert(imported_from(view, document));
        }
        self.insert_sorted(profile);
        let ghost before = self.quarantined@;
        let mut quarantined: Vec<String> = Vec::new();
        std::mem::swap(&mut quarantined, &mut self.quarantined);
        quarantined.push(id.clone());
        self.quarantined = quarantined;
        proof {
            assert(self.quarantined@[before.len() as int]@ == id@);
        }
        Ok(id)
    }
}

/// Whether a stored profile has a Supporting Application with this id.
pub open spec fn has_supporting_id(applications: Seq<SupportingApplicationView>, id: Seq<char>) -> bool {
    exists|index: int| 0 <= index < applications.len() && (#[trigger] applications[index]).application.id@ == id
}

/// How a saved Supporting Application follows the edited one: its content, and
/// an id that is either kept from the stored profile (and not kept before) or new.
pub open spec fn supporting_saved_from(
    saved: SupportingApplicationView,
    edited: SupportingApplicationView,
    stored: Seq<SupportingApplicationView>,
    earlier: Seq<SupportingApplicationView>,
) -> bool {
    &&& saved.application.name@ == edited.application.name@
    &&& saved.application.launch_recipe == edited.application.launch_recipe
    &&& saved.requirement == edited.requirement
    &&& saved.keep_running == edited.keep_running
    &&& (!recipe_is_direct(edited.application.launch_recipe) ==> !saved.application.path_needs_repair)
    &&& ((saved.application.id@ == edited.application.id@ && has_supporting_id(stored, edited.application.id@)
        && !has_supporting_id(earlier, edited.application.id@)) || is_canonical_uuid(saved.application.id@))
}

/// How a saved profile follows the edited and the stored one.
pub open spec fn saved_from(saved: RacingProfileView, edited: RacingProfileView, stored: RacingProfileView) -> bool {
    &&& saved.id@ == edited.id@
    &&& saved.name@ == edited.name@
    &&& saved.primary_sim.id@ == stored.primary_sim.id@
    &&& saved.primary_sim.name@ == edited.primary_sim.name@
    &&& saved.primary_sim.launch_recipe == edited.primary_sim.launch_recipe
    &&& (!recipe_is_direct(edited.primary_sim.launch_recipe) ==> !saved.primary_sim.path_needs_repair)
    &&& saved.supporting_applications.len() == edited.supporting_applications.len()
    &&& forall|k: int|
        0 <= k < saved.supporting_applications.len() ==> supporting_saved_from(
            #[trigger] saved.supporting_applications[k],
            edited.supporting_applications[k],
            stored.supporting_applications,
            saved.supporting_applications.subrange(0, k),
        )
    &&& saved.vr_enabled == edited.vr_enabled
    &&& saved.preferred_vr_launch_mode == edited.preferred_vr_launch_mode
    &&& saved.close_session == edited.close_session
}

/// The applications of a profile: its Supporting Applications in order, then its Primary Sim.
pub open spec fn profile_application_views(profile: RacingProfileView) -> Seq<ProfileApplicationView> {
    profile.supporting_applications.map_values(|supporting: SupportingApplicationView| supporting.application).push(
        profile.primary_sim,
    )
}

/// Whether a portable Supporting Application has a blank name.
pub open spec fn portable_name_is_blank(applications: Seq<PortableSupportingApplication>) -> bool {
    exists|index: int| 0 <= index < applications.len() && is_blank(#[trigger] applications[index].application.name@)
}

fn has_blank_portable_name(applications: &Vec<PortableSupportingApplication>) -> (res: bool)
    ensures
        res == portable_name_is_blank(applications@),
{
    let mut index: usize = 0;
    while index < applications.len()
        invariant
            index <= applications@.len(),
            forall|earlier: int| 0 <= earlier < index ==> !is_blank(#[trigger] applications@[earlier].application.name@),
        decreases applications@.len() - index,
    {
        if text_is_blank(applications[index].application.name.as_str()) {
            return true;
        }
        index = index + 1;
    }
    false
}

/// The number of configured applications: one Primary Sim and the Supporting
/// Applications of each profile.
pub open spec fn application_count(profiles: Seq<RacingProfileView>) -> int
    decreases profiles.len(),
{
    if profiles.len() == 0 {
        0
    } else {
        application_count(profiles.drop_last()) + 1 + profiles.last().supporting_applications.len()
    }
}

proof fn lemma_application_count_grows(shorter: Seq<RacingProfileView>, longer: Seq<RacingProfileView>)
    requires
        longer.len() == shorter.len() + 1,
        longer.drop_last() == shorter,
    ensures
        application_count(longer) == application_count(shorter) + 1 + longer.last().supporting_applications.len(),
        application_count(longer) > application_count(shorter),
{
}

/// An exported profile imports with the same content: names, Launch Recipes,
/// requirements, VR and close settings; only ids change.
pub proof fn export_then_import_keeps_content(stored: RacingProfileView, imported: RacingProfileView)
    requires
        imported_from(imported, portable_view(stored)),
    ensures
        imported.name == stored.name || imported.name@ == stored.name@,
        imported.primary_sim.name@ == stored.primary_sim.name@,
        imported.primary_sim.launch_recipe == stored.primary_sim.launch_recipe,
        imported.supporting_applications.len() == stored.supporting_applications.len(),
        forall|i: int|
            0 <= i < imported.supporting_applications.len() ==> {
                &&& (#[trigger] imported.supporting_applications[i]).application.name@
                    == stored.supporting_applications[i].application.name@
                &&& imported.supporting_applications[i].application.launch_recipe
                    == stored.supporting_applications[i].application.launch_recipe
                &&& imported.supporting_applications[i].requirement == stored.supporting_applications[i].requirement
                &&& imported.supporting_applications[i].keep_running == stored.supporting_applications[i].keep_running
            },
        imported.vr_enabled == stored.vr_enabled,
        imported.preferred_vr_launch_mode == stored.preferred_vr_launch_mode,
        imported.close_session == stored.close_session,
{
    assert(portable_view(imported).supporting_applications.len() == imported.supporting_applications.len());
    assert(portable_view(stored).supporting_applications.len() == stored.supporting_applications.len());
    assert forall|i: int| 0 <= i < imported.supporting_applications.len() implies {
        &&& (#[trigger] imported.supporting_applications[i]).application.name@
            == stored.supporting_applications[i].application.name@
        &&& imported.supporting_applications[i].application.launch_recipe
            == stored.supporting_applications[i].application.launch_recipe
        &&& imported.supporting_applications[i].requirement == stored.supporting_applications[i].requirement
        &&& imported.supporting_applications[i].keep_running == stored.supporting_applications[i].keep_running
    } by {
        let left = portable_view(imported).supporting_applications[i];
        let right = portable_view(stored).supporting_applications[i];
        assert(left == right);
        assert(left.0 == imported.supporting_applications[i].application.name@);
        assert(right.0 == stored.supporting_applications[i].application.name@);
    }
}

/// The schema version of a stored Racing Profile document.
pub const PROFILE_SCHEMA_VERSION: u32 = 2;

/// The earlier stored schema, which is still read and then upgraded.
pub const LEGACY_PROFILE_SCHEMA_VERSION: u32 = 1;

/// What loading does with a stored profile document that was accepted.
#[derive(Clone, Copy, Debug, PartialEq, Eq, Structural)]
pub enum StoredProfileAction {
    /// The document is current and stored under its own identity.
    Keep,
    /// The document is of the earlier schema and is rewritten in the current one.
    UpgradeSchema,
    /// The id is not a canonical UUID or is not the file's stem: the profile
    /// gets a fresh identity, in the current schema, under a new file.
    AssignNewIdentity,
}

/// Whether a stored document's id is a canonical UUID and names its file.
pub open spec fn identity_matches_source(id: Seq<char>, file_stem: Option<Seq<char>>) -> bool {
    is_canonical_uuid(id) && file_stem == Some(id)
}

/// What loading a stored profile document does: a document of another
/// schema, or with a blank name, is refused; one whose identity does not
/// match its file gets a new identity; one of the earlier schema is upgraded.
pub fn stored_profile_action(
    schema_version: u32,
    profile: &RacingProfile,
    file_stem: Option<&str>,
) -> (res: Result<StoredProfileAction, CoreError>)
    ensures
        schema_version != PROFILE_SCHEMA_VERSION && schema_version != LEGACY_PROFILE_SCHEMA_VERSION ==> res
            == Err::<StoredProfileAction, CoreError>(CoreError::UnsupportedProfileSchema(schema_version)),
        (schema_version == PROFILE_SCHEMA_VERSION || schema_version == LEGACY_PROFILE_SCHEMA_VERSION) ==> match names_failure(
            profile.name@,
            profile.primary_sim.name@,
        ) {
            Some(field) => res is Err && is_name_error(res->Err_0, field),
            None => res is Ok,
        },
        res matches Ok(action) ==> action == (if !identity_matches_source(
            profile.id@,
            match file_stem {
                Some(stem) => Some(stem@),
                None => None,
            },
        ) {
            StoredProfileAction::AssignNewIdentity
        } else if schema_version == LEGACY_PROFILE_SCHEMA_VERSION {
            StoredProfileAction::UpgradeSchema
        } else {
            StoredProfileAction::Keep
        }),
{
    if schema_version != PROFILE_SCHEMA_VERSION && schema_version != LEGACY_PROFILE_SCHEMA_VERSION {
        return Err(CoreError::UnsupportedProfileSchema(schema_version));
    }
    if let Err(error) = validate_profile_names(profile.name.as_str(), profile.primary_sim.name.as_str()) {
        return Err(error);
    }
    let matches = match file_stem {
        Some(stem) => is_canonical_uuid_text(profile.id.as_str()) && same_text(stem, profile.id.as_str()),
        None => false,
    };
    if !matches {
        Ok(StoredProfileAction::AssignNewIdentity)
    } else if schema_version == LEGACY_PROFILE_SCHEMA_VERSION {
        Ok(StoredProfileAction::UpgradeSchema)
    } else {
        Ok(StoredProfileAction::Keep)
    }
}

/// Whether a failed load of a live profile document is answered by reading
/// its backup: only a document that could not be read or that holds a blank
/// name is; an unsupported schema or a storage failure is reported as it is.
pub fn backup_may_replace(error: &CoreError) -> (res: bool)
    ensures
        res == (error is InvalidProfileDocument || error is InvalidProfileName),
{
    match error {
        CoreError::InvalidProfileDocument(_) | CoreError::InvalidProfileName(_) => true,
        _ => false,
    }
}

} // verus!
