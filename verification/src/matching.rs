//! The scoring engine.
//!
//! A compatibility score is a convex combination of five sub-scores, each an
//! integer between 0 and [`SCORE_UNIT`]: academic fit, field of study,
//! location preference, eligibility and skills.  The weights are fixed and
//! sum to 100.

use vstd::prelude::*;

use crate::text::{
    any_contains, any_contains_nocase, any_equal, any_similar, any_similar_nocase, contains_exact,
    contains_nocase, similar_nocase, str_contains_nocase, str_similar_nocase,
};
use crate::types::{
    Criterion, CriterionView, DegreeLevel, MatchResult, MatchResultView, Scholarship, UserProfile,
};
use vstd::math::min;

verus! {

/// A full score: all scores are integers in ten-thousandths.
pub const SCORE_UNIT: u32 = 10000;

/// Weight of the academic sub-score, in hundredths.
pub const WEIGHT_ACADEMIC: u32 = 25;

/// Weight of the field-of-study sub-score, in hundredths.
pub const WEIGHT_FIELD: u32 = 20;

/// Weight of the location sub-score, in hundredths.
pub const WEIGHT_LOCATION: u32 = 30;

/// Weight of the eligibility sub-score, in hundredths.
pub const WEIGHT_ELIGIBILITY: u32 = 15;

/// Weight of the skills sub-score, in hundredths.
pub const WEIGHT_SKILLS: u32 = 10;

/// Location sub-score when the user named preferences and none matches.
pub const LOCATION_PENALTY: u32 = 3000;

/// Location sub-score when the user expressed no country preference.
pub const LOCATION_NO_PREFERENCE: u32 = 7500;

/// The stateless scoring engine.
pub struct MatchingEngine;

/// The user's grade point average reaches the scholarship's minimum.
pub open spec fn spec_gpa_met(user: UserProfile, scholarship: Scholarship) -> bool {
    user.education.gpa >= scholarship.eligibility.min_gpa
}

/// The user's degree level is one the scholarship admits.
pub open spec fn spec_degree_met(user: UserProfile, scholarship: Scholarship) -> bool {
    scholarship.degree_levels@.contains(user.education.degree_level)
}

/// The academic sub-score: the grade check carries 60% of it and the degree
/// check the other 40%.
pub open spec fn spec_academic_score(user: UserProfile, scholarship: Scholarship) -> u32 {
    match (spec_gpa_met(user, scholarship), spec_degree_met(user, scholarship)) {
        (true, true) => 10000u32,
        (true, false) => 6000u32,
        (false, true) => 4000u32,
        (false, false) => 0u32,
    }
}

/// The criteria the academic check reports as matched, in evaluation order:
/// the grade check before the degree check.
pub open spec fn spec_academic_matched(user: UserProfile, scholarship: Scholarship) -> Seq<
    CriterionView,
> {
    let gpa_part: Seq<CriterionView> = if spec_gpa_met(user, scholarship) {
        seq![
            CriterionView::GpaMet {
                gpa: user.education.gpa,
                min_gpa: scholarship.eligibility.min_gpa,
            },
        ]
    } else {
        Seq::empty()
    };
    let degree_part: Seq<CriterionView> = if spec_degree_met(user, scholarship) {
        seq![CriterionView::DegreeEligible { level: user.education.degree_level }]
    } else {
        Seq::empty()
    };
    gpa_part + degree_part
}

/// The criteria the academic check reports as missing, in evaluation order.
pub open spec fn spec_academic_missing(user: UserProfile, scholarship: Scholarship) -> Seq<
    CriterionView,
> {
    let gpa_part: Seq<CriterionView> = if spec_gpa_met(user, scholarship) {
        Seq::empty()
    } else {
        seq![
            CriterionView::GpaBelow {
                gpa: user.education.gpa,
                min_gpa: scholarship.eligibility.min_gpa,
            },
        ]
    };
    let degree_part: Seq<CriterionView> = if spec_degree_met(user, scholarship) {
        Seq::empty()
    } else {
        seq![CriterionView::DegreeNotEligible { level: user.education.degree_level }]
    };
    gpa_part + degree_part
}

/// The strings of `items` that are similar to `target`, in order.
pub open spec fn spec_similar_to(items: Seq<Seq<char>>, target: Seq<char>) -> Seq<Seq<char>>
    decreases items.len(),
{
    if items.len() == 0 {
        Seq::empty()
    } else {
        let rest = spec_similar_to(items.drop_last(), target);
        if similar_nocase(items.last(), target) {
            rest.push(items.last())
        } else {
            rest
        }
    }
}

/// Appending one string to `items` extends the similar selection by that
/// string exactly when it is similar to `target`.
proof fn lemma_similar_to_push(items: Seq<Seq<char>>, target: Seq<char>, e: Seq<char>)
    ensures
        spec_similar_to(items.push(e), target) == if similar_nocase(e, target) {
            spec_similar_to(items, target).push(e)
        } else {
            spec_similar_to(items, target)
        },
{
    assert(items.push(e).drop_last() =~= items);
    assert(items.push(e).last() == e);
}

/// The scholarship fields of study that are similar to the user's major.
pub open spec fn spec_matching_fields(user: UserProfile, scholarship: Scholarship) -> Seq<
    Seq<char>,
> {
    spec_similar_to(scholarship.fields_of_study.deep_view(), user.education.major@)
}

/// The field sub-score: full when the scholarship restricts no field or some
/// eligible field is similar to the user's major, nothing otherwise.
pub open spec fn spec_field_score(user: UserProfile, scholarship: Scholarship) -> u32 {
    if scholarship.fields_of_study.deep_view().len() == 0 || spec_matching_fields(
        user,
        scholarship,
    ).len() > 0 {
        10000u32
    } else {
        0u32
    }
}

/// The criteria the field check reports as matched.
pub open spec fn spec_field_matched(user: UserProfile, scholarship: Scholarship) -> Seq<
    CriterionView,
> {
    if spec_matching_fields(user, scholarship).len() > 0 {
        seq![CriterionView::FieldMatched { fields: spec_matching_fields(user, scholarship) }]
    } else if scholarship.fields_of_study.deep_view().len() == 0 {
        seq![CriterionView::FieldUnrestricted]
    } else {
        Seq::empty()
    }
}

/// The criteria the field check reports as missing.
pub open spec fn spec_field_missing(user: UserProfile, scholarship: Scholarship) -> Seq<
    CriterionView,
> {
    if scholarship.fields_of_study.deep_view().len() > 0 && spec_matching_fields(
        user,
        scholarship,
    ).len() == 0 {
        seq![CriterionView::FieldNotMatched { major: user.education.major@ }]
    } else {
        Seq::empty()
    }
}

/// Some preferred country of the user is similar to the scholarship's
/// country.
pub open spec fn spec_location_met(user: UserProfile, scholarship: Scholarship) -> bool {
    any_similar_nocase(user.preferences.preferred_countries.deep_view(), scholarship.country@)
}

/// The location sub-score: full on a preferred country, a fixed middle value
/// when the user expressed no preference, a fixed penalty otherwise.
pub open spec fn spec_location_score(user: UserProfile, scholarship: Scholarship) -> u32 {
    if spec_location_met(user, scholarship) {
        10000u32
    } else if user.preferences.preferred_countries.deep_view().len() == 0 {
        LOCATION_NO_PREFERENCE
    } else {
        LOCATION_PENALTY
    }
}

/// The criteria the location check reports as matched; it reports nothing as
/// missing.
pub open spec fn spec_location_matched(user: UserProfile, scholarship: Scholarship) -> Seq<
    CriterionView,
> {
    if spec_location_met(user, scholarship) {
        seq![CriterionView::CountryPreferred { country: scholarship.country@ }]
    } else {
        Seq::empty()
    }
}

/// The scholarship accepts all nationalities or names the user's.
pub open spec fn spec_nationality_met(user: UserProfile, scholarship: Scholarship) -> bool {
    ||| scholarship.eligibility.nationalities.deep_view().len() == 0
    ||| contains_exact(scholarship.eligibility.nationalities.deep_view(), user.education.country@)
}

/// The user's age, estimated from the graduation year: a graduate is taken to
/// have been 22 in the year of graduation.
pub open spec fn spec_estimated_age(user: UserProfile, current_year: u32) -> int {
    current_year - user.education.graduation_year + 22
}

/// The estimated age lies within the scholarship's limit.
pub open spec fn spec_age_met(user: UserProfile, scholarship: Scholarship, current_year: u32) -> bool {
    match scholarship.eligibility.age_limit {
        Some(limit) => spec_estimated_age(user, current_year) <= limit,
        None => true,
    }
}

/// The user has graduated, read as having gathered work experience.
pub open spec fn spec_work_met(user: UserProfile, current_year: u32) -> bool {
    current_year > user.education.graduation_year
}

/// How many eligibility checks apply: nationality always, age and work
/// experience only when the scholarship sets them.
pub open spec fn spec_eligibility_count(scholarship: Scholarship) -> int {
    1 + (if scholarship.eligibility.age_limit is Some {
        1int
    } else {
        0int
    }) + (if scholarship.eligibility.work_experience_years is Some {
        1int
    } else {
        0int
    })
}

/// How many applicable eligibility checks pass.
pub open spec fn spec_eligibility_passed(
    user: UserProfile,
    scholarship: Scholarship,
    current_year: u32,
) -> int {
    (if spec_nationality_met(user, scholarship) {
        1int
    } else {
        0int
    }) + (if scholarship.eligibility.age_limit is Some && spec_age_met(
        user,
        scholarship,
        current_year,
    ) {
        1int
    } else {
        0int
    }) + (if scholarship.eligibility.work_experience_years is Some && spec_work_met(
        user,
        current_year,
    ) {
        1int
    } else {
        0int
    })
}

/// The eligibility sub-score: the passed fraction of the applicable checks,
/// or full when no check applies.
pub open spec fn spec_eligibility_score(
    user: UserProfile,
    scholarship: Scholarship,
    current_year: u32,
) -> u32 {
    if spec_eligibility_count(scholarship) == 0 {
        10000u32
    } else {
        (spec_eligibility_passed(user, scholarship, current_year) * 10000 / spec_eligibility_count(
            scholarship,
        )) as u32
    }
}

/// The criteria the eligibility check reports as matched, in evaluation
/// order: nationality, then age, then work experience.
pub open spec fn spec_eligibility_matched(
    user: UserProfile,
    scholarship: Scholarship,
    current_year: u32,
) -> Seq<CriterionView> {
    let nat_part: Seq<CriterionView> = if spec_nationality_met(user, scholarship) {
        seq![CriterionView::NationalityEligible]
    } else {
        Seq::empty()
    };
    let age_part: Seq<CriterionView> = match scholarship.eligibility.age_limit {
        Some(limit) => if spec_estimated_age(user, current_year) <= limit {
            seq![
                CriterionView::AgeWithinLimit {
                    estimated_age: spec_estimated_age(user, current_year),
                    age_limit: limit,
                },
            ]
        } else {
            Seq::empty()
        },
        None => Seq::empty(),
    };
    let work_part: Seq<CriterionView> = if scholarship.eligibility.work_experience_years is Some
        && spec_work_met(user, current_year) {
        seq![CriterionView::WorkExperienceMet]
    } else {
        Seq::empty()
    };
    nat_part + age_part + work_part
}

/// The criteria the eligibility check reports as missing, in evaluation
/// order.
pub open spec fn spec_eligibility_missing(
    user: UserProfile,
    scholarship: Scholarship,
    current_year: u32,
) -> Seq<CriterionView> {
    let nat_part: Seq<CriterionView> = if spec_nationality_met(user, scholarship) {
        Seq::empty()
    } else {
        seq![CriterionView::NationalityNotEligible]
    };
    let age_part: Seq<CriterionView> = match scholarship.eligibility.age_limit {
        Some(limit) => if spec_estimated_age(user, current_year) <= limit {
            Seq::empty()
        } else {
            seq![
                CriterionView::AgeOverLimit {
                    estimated_age: spec_estimated_age(user, current_year),
                    age_limit: limit,
                },
            ]
        },
        None => Seq::empty(),
    };
    let work_part: Seq<CriterionView> = if scholarship.eligibility.work_experience_years is Some
        && !spec_work_met(user, current_year) {
        seq![CriterionView::WorkExperienceNotMet]
    } else {
        Seq::empty()
    };
    nat_part + age_part + work_part
}

/// The required skills for which the user has some similar skill, in order.
pub open spec fn spec_skills_hit(required: Seq<Seq<char>>, user_skills: Seq<Seq<char>>) -> Seq<
    Seq<char>,
>
    decreases required.len(),
{
    if required.len() == 0 {
        Seq::empty()
    } else {
        let rest = spec_skills_hit(required.drop_last(), user_skills);
        if any_similar_nocase(user_skills, required.last()) {
            rest.push(required.last())
        } else {
            rest
        }
    }
}

/// The required skills for which the user has no similar skill, in order.
pub open spec fn spec_skills_miss(required: Seq<Seq<char>>, user_skills: Seq<Seq<char>>) -> Seq<
    Seq<char>,
>
    decreases required.len(),
{
    if required.len() == 0 {
        Seq::empty()
    } else {
        let rest = spec_skills_miss(required.drop_last(), user_skills);
        if any_similar_nocase(user_skills, required.last()) {
            rest
        } else {
            rest.push(required.last())
        }
    }
}

/// Appending one required skill extends exactly one of the two selections.
proof fn lemma_skills_push(required: Seq<Seq<char>>, user_skills: Seq<Seq<char>>, e: Seq<char>)
    ensures
        spec_skills_hit(required.push(e), user_skills) == if any_similar_nocase(user_skills, e) {
            spec_skills_hit(required, user_skills).push(e)
        } else {
            spec_skills_hit(required, user_skills)
        },
        spec_skills_miss(required.push(e), user_skills) == if any_similar_nocase(user_skills, e) {
            spec_skills_miss(required, user_skills)
        } else {
            spec_skills_miss(required, user_skills).push(e)
        },
{
    assert(required.push(e).drop_last() =~= required);
    assert(required.push(e).last() == e);
}

/// Together the two selections cover every required skill.
proof fn lemma_skills_split(required: Seq<Seq<char>>, user_skills: Seq<Seq<char>>)
    ensures
        spec_skills_hit(required, user_skills).len() + spec_skills_miss(required, user_skills).len()
            == required.len(),
    decreases required.len(),
{
    if required.len() > 0 {
        lemma_skills_split(required.drop_last(), user_skills);
    }
}

/// The skills sub-score: the fraction of required skills the user has, or
/// full when the scholarship requires none.
pub open spec fn spec_skills_score(user: UserProfile, scholarship: Scholarship) -> u32 {
    let required = scholarship.eligibility.required_skills.deep_view();
    if required.len() == 0 {
        10000u32
    } else {
        (spec_skills_hit(required, user.skills.deep_view()).len() * 10000 / required.len()) as u32
    }
}

/// The criteria the skills check reports as matched.
pub open spec fn spec_skills_matched(user: UserProfile, scholarship: Scholarship) -> Seq<
    CriterionView,
> {
    let hit = spec_skills_hit(
        scholarship.eligibility.required_skills.deep_view(),
        user.skills.deep_view(),
    );
    if scholarship.eligibility.required_skills.deep_view().len() > 0 && hit.len() > 0 {
        seq![CriterionView::SkillsMatched { skills: hit }]
    } else {
        Seq::empty()
    }
}

/// The criteria the skills check reports as missing.
pub open spec fn spec_skills_missing(user: UserProfile, scholarship: Scholarship) -> Seq<
    CriterionView,
> {
    let miss = spec_skills_miss(
        scholarship.eligibility.required_skills.deep_view(),
        user.skills.deep_view(),
    );
    if scholarship.eligibility.required_skills.deep_view().len() > 0 && miss.len() > 0 {
        seq![CriterionView::SkillsMissing { skills: miss }]
    } else {
        Seq::empty()
    }
}

/// The compatibility score: the convex combination of the five sub-scores
/// with the fixed weights.
pub open spec fn spec_total_score(
    user: UserProfile,
    scholarship: Scholarship,
    current_year: u32,
) -> u32 {
    ((spec_academic_score(user, scholarship) * WEIGHT_ACADEMIC + spec_field_score(
        user,
        scholarship,
    ) * WEIGHT_FIELD + spec_location_score(user, scholarship) * WEIGHT_LOCATION
        + spec_eligibility_score(user, scholarship, current_year) * WEIGHT_ELIGIBILITY
        + spec_skills_score(user, scholarship) * WEIGHT_SKILLS) / 100) as u32
}

/// All matched criteria, in the fixed evaluation order: academic, field,
/// location, eligibility, skills.
pub open spec fn spec_matched_criteria(
    user: UserProfile,
    scholarship: Scholarship,
    current_year: u32,
) -> Seq<CriterionView> {
    spec_academic_matched(user, scholarship) + spec_field_matched(user, scholarship)
        + spec_location_matched(user, scholarship) + spec_eligibility_matched(
        user,
        scholarship,
        current_year,
    ) + spec_skills_matched(user, scholarship)
}

/// All missing criteria, in the fixed evaluation order; the location check
/// reports none.
pub open spec fn spec_missing_criteria(
    user: UserProfile,
    scholarship: Scholarship,
    current_year: u32,
) -> Seq<CriterionView> {
    spec_academic_missing(user, scholarship) + spec_field_missing(user, scholarship)
        + spec_eligibility_missing(user, scholarship, current_year) + spec_skills_missing(
        user,
        scholarship,
    )
}

/// The whole outcome of scoring one user against one scholarship.
pub open spec fn spec_match_of(
    user: UserProfile,
    scholarship: Scholarship,
    current_year: u32,
    now: u64,
) -> MatchResultView {
    MatchResultView {
        scholarship_id: scholarship.id@,
        user_id: user.id@,
        compatibility_score: spec_total_score(user, scholarship, current_year),
        matched_criteria: spec_matched_criteria(user, scholarship, current_year),
        missing_criteria: spec_missing_criteria(user, scholarship, current_year),
        matched_at: now,
    }
}

/// The eligibility sub-score never exceeds a full score.
proof fn lemma_eligibility_score_bounded(
    user: UserProfile,
    scholarship: Scholarship,
    current_year: u32,
)
    ensures
        spec_eligibility_score(user, scholarship, current_year) <= 10000,
{
    let passed = spec_eligibility_passed(user, scholarship, current_year);
    let count = spec_eligibility_count(scholarship);
    if count != 0 {
        assert(passed * 10000 / count <= 10000) by (nonlinear_arith)
            requires
                0 <= passed <= count,
                0 < count,
        ;
    }
}

/// The skills sub-score never exceeds a full score.
proof fn lemma_skills_score_bounded(user: UserProfile, scholarship: Scholarship)
    ensures
        spec_skills_score(user, scholarship) <= 10000,
{
    let required = scholarship.eligibility.required_skills.deep_view();
    let user_skills = user.skills.deep_view();
    if required.len() > 0 {
        lemma_skills_split(required, user_skills);
        assert(spec_skills_hit(required, user_skills).len() * 10000 / required.len() <= 10000)
            by (nonlinear_arith)
            requires
                spec_skills_hit(required, user_skills).len() <= required.len(),
                required.len() > 0,
        ;
    }
}

/// The compatibility score always lies between zero and a full score:
/// for every user and scholarship, `0 <= score <= SCORE_UNIT`.
pub proof fn lemma_score_in_range(user: UserProfile, scholarship: Scholarship, current_year: u32)
    ensures
        0 <= spec_total_score(user, scholarship, current_year) <= SCORE_UNIT,
{
    lemma_eligibility_score_bounded(user, scholarship, current_year);
    lemma_skills_score_bounded(user, scholarship);
}

/// Scoring is deterministic: two results computed from the same user,
/// scholarship, year and timestamp agree in score and in both criteria
/// lists.
pub proof fn lemma_compatibility_deterministic(
    first: MatchResultView,
    second: MatchResultView,
    user: UserProfile,
    scholarship: Scholarship,
    current_year: u32,
    now: u64,
)
    requires
        first == spec_match_of(user, scholarship, current_year, now),
        second == spec_match_of(user, scholarship, current_year, now),
    ensures
        first == second,
{
}

/// A scholarship that restricts no field of study grants the full field
/// sub-score, whatever the user's major.
pub proof fn lemma_field_unrestricted_full(user: UserProfile, scholarship: Scholarship)
    requires
        scholarship.fields_of_study@.len() == 0,
    ensures
        spec_field_score(user, scholarship) == SCORE_UNIT,
{
}

/// A user with no preferred country gets exactly the fixed middle location
/// sub-score.
pub proof fn lemma_no_country_preference(user: UserProfile, scholarship: Scholarship)
    requires
        user.preferences.preferred_countries@.len() == 0,
    ensures
        spec_location_score(user, scholarship) == LOCATION_NO_PREFERENCE,
{
}

/// A scholarship that requires no skill grants the full skills sub-score.
pub proof fn lemma_no_required_skills(user: UserProfile, scholarship: Scholarship)
    requires
        scholarship.eligibility.required_skills@.len() == 0,
    ensures
        spec_skills_score(user, scholarship) == SCORE_UNIT,
{
}

/// Raising the grade point average never lowers the academic sub-score,
/// everything else held fixed.
pub proof fn lemma_academic_monotone(
    user_low: UserProfile,
    user_high: UserProfile,
    scholarship: Scholarship,
)
    requires
        user_low.education.degree_level == user_high.education.degree_level,
        user_low.education.gpa <= user_high.education.gpa,
    ensures
        spec_academic_score(user_low, scholarship) <= spec_academic_score(user_high, scholarship),
{
}

/// Raising the grade point average from below the scholarship's minimum to
/// at or above it raises the academic sub-score by the weight of the grade
/// check, everything else held fixed.
pub proof fn lemma_academic_gpa_crossing(
    user_low: UserProfile,
    user_high: UserProfile,
    scholarship: Scholarship,
)
    requires
        user_low.education.degree_level == user_high.education.degree_level,
        user_low.education.gpa < scholarship.eligibility.min_gpa,
        scholarship.eligibility.min_gpa <= user_high.education.gpa,
    ensures
        spec_academic_score(user_high, scholarship) == spec_academic_score(user_low, scholarship)
            + 6000,
{
}

/// The match of every catalog scholarship, in catalog order.
pub open spec fn spec_all_matches(
    user: UserProfile,
    catalog: Seq<Scholarship>,
    current_year: u32,
    now: u64,
) -> Seq<MatchResultView> {
    catalog.map_values(|s: Scholarship| spec_match_of(user, s, current_year, now))
}

/// Scores never increase along the sequence.
pub open spec fn spec_sorted_desc(results: Seq<MatchResultView>) -> bool {
    forall|i: int, j: int|
        0 <= i < j < results.len() ==> (#[trigger] results[i]).compatibility_score >= (
        #[trigger] results[j]).compatibility_score
}

/// Insert a result into a sequence sorted by descending score, behind every
/// result whose score is at least as high, so that earlier results keep
/// their place on ties.
pub open spec fn spec_insert_desc(sorted: Seq<MatchResultView>, m: MatchResultView) -> Seq<
    MatchResultView,
>
    decreases sorted.len(),
{
    if sorted.len() == 0 {
        seq![m]
    } else if sorted.first().compatibility_score >= m.compatibility_score {
        seq![sorted.first()] + spec_insert_desc(sorted.drop_first(), m)
    } else {
        seq![m] + sorted
    }
}

/// Stable insertion sort by descending score: results with equal scores keep
/// their input order.
pub open spec fn spec_sort_desc(results: Seq<MatchResultView>) -> Seq<MatchResultView>
    decreases results.len(),
{
    if results.len() == 0 {
        Seq::empty()
    } else {
        spec_insert_desc(spec_sort_desc(results.drop_last()), results.last())
    }
}

/// Insertion adds the one result and keeps all others.
proof fn lemma_insert_desc_ensures(sorted: Seq<MatchResultView>, m: MatchResultView)
    requires
        spec_sorted_desc(sorted),
    ensures
        spec_insert_desc(sorted, m).len() == sorted.len() + 1,
        spec_sorted_desc(spec_insert_desc(sorted, m)),
        forall|x: MatchResultView|
            #[trigger] spec_insert_desc(sorted, m).contains(x) <==> (sorted.contains(x) || x == m),
    decreases sorted.len(),
{
    let out = spec_insert_desc(sorted, m);
    if sorted.len() == 0 {
        assert forall|x: MatchResultView| #[trigger] out.contains(x) implies (sorted.contains(x)
            || x == m) by {
            let i = choose|i: int| 0 <= i < out.len() && out[i] == x;
            assert(out[i] == m);
        }
        assert(out.contains(m)) by {
            assert(out[0] == m);
        }
    } else if sorted.first().compatibility_score >= m.compatibility_score {
        let head = sorted.first();
        let tail = sorted.drop_first();
        assert(spec_sorted_desc(tail)) by {
            assert(forall|i: int, j: int|
                0 <= i < j < tail.len() ==> (#[trigger] tail[i]).compatibility_score >= (
                #[trigger] tail[j]).compatibility_score) by {
                assert(forall|i: int| 0 <= i < tail.len() ==> tail[i] == sorted[i + 1]);
            }
        }
        lemma_insert_desc_ensures(tail, m);
        let rec = spec_insert_desc(tail, m);
        assert(out == seq![head] + rec);
        assert(out[0] == head);
        assert(forall|i: int| 0 <= i < rec.len() ==> out[i + 1] == rec[i]);
        assert(spec_sorted_desc(out)) by {
            assert forall|i: int, j: int| 0 <= i < j < out.len() implies (
            #[trigger] out[i]).compatibility_score >= (#[trigger] out[j]).compatibility_score by {
                if i == 0 {
                    assert(out[j] == rec[j - 1]);
                    assert(rec.contains(rec[j - 1]));
                    let x = rec[j - 1];
                    if x == m {
                        assert(head.compatibility_score >= m.compatibility_score);
                    } else {
                        assert(tail.contains(x));
                        let k = choose|k: int| 0 <= k < tail.len() && tail[k] == x;
                        assert(sorted[k + 1] == x);
                        assert(head.compatibility_score >= sorted[k + 1].compatibility_score);
                    }
                } else {
                    assert(out[i] == rec[i - 1] && out[j] == rec[j - 1]);
                }
            }
        }
        assert forall|x: MatchResultView| #[trigger] out.contains(x) implies (sorted.contains(x)
            || x == m) by {
            let i = choose|i: int| 0 <= i < out.len() && out[i] == x;
            if i == 0 {
                assert(sorted[0] == x);
            } else {
                assert(rec.contains(out[i])) by {
                    assert(rec[i - 1] == out[i]);
                }
                if tail.contains(x) {
                    let k = choose|k: int| 0 <= k < tail.len() && tail[k] == x;
                    assert(sorted[k + 1] == x);
                }
            }
        }
        assert forall|x: MatchResultView| (sorted.contains(x) || x == m) implies
            #[trigger] out.contains(x) by {
            if sorted.contains(x) {
                let i = choose|i: int| 0 <= i < sorted.len() && sorted[i] == x;
                if i == 0 {
                    assert(out[0] == x);
                } else {
                    assert(tail[i - 1] == x);
                    assert(rec.contains(x));
                    let k = choose|k: int| 0 <= k < rec.len() && rec[k] == x;
                    assert(out[k + 1] == x);
                }
            } else {
                assert(rec.contains(m));
                let k = choose|k: int| 0 <= k < rec.len() && rec[k] == m;
                assert(out[k + 1] == m);
            }
        }
    } else {
        assert(out == seq![m] + sorted);
        assert(out[0] == m);
        assert(forall|i: int| 0 <= i < sorted.len() ==> out[i + 1] == sorted[i]);
        assert(spec_sorted_desc(out)) by {
            assert forall|i: int, j: int| 0 <= i < j < out.len() implies (
            #[trigger] out[i]).compatibility_score >= (#[trigger] out[j]).compatibility_score by {
                if i == 0 {
                    assert(out[j] == sorted[j - 1]);
                    assert(sorted[0].compatibility_score >= sorted[j - 1].compatibility_score);
                } else {
                    assert(out[i] == sorted[i - 1] && out[j] == sorted[j - 1]);
                }
            }
        }
        assert forall|x: MatchResultView| #[trigger] out.contains(x) implies (sorted.contains(x)
            || x == m) by {
            let i = choose|i: int| 0 <= i < out.len() && out[i] == x;
            if i > 0 {
                assert(sorted[i - 1] == x);
            }
        }
        assert forall|x: MatchResultView| (sorted.contains(x) || x == m) implies
            #[trigger] out.contains(x) by {
            if sorted.contains(x) {
                let i = choose|i: int| 0 <= i < sorted.len() && sorted[i] == x;
                assert(out[i + 1] == x);
            }
        }
    }
}

/// The sorted sequence has the same length and the same members as the
/// input.
proof fn lemma_sort_desc_ensures(results: Seq<MatchResultView>)
    ensures
        spec_sort_desc(results).len() == results.len(),
        spec_sorted_desc(spec_sort_desc(results)),
        forall|x: MatchResultView|
            #[trigger] spec_sort_desc(results).contains(x) <==> results.contains(x),
    decreases results.len(),
{
    if results.len() > 0 {
        let head = results.drop_last();
        lemma_sort_desc_ensures(head);
        lemma_insert_desc_ensures(spec_sort_desc(head), results.last());
        assert forall|x: MatchResultView| #[trigger] spec_sort_desc(results).contains(x) implies
            results.contains(x) by {
            if spec_sort_desc(head).contains(x) {
                assert(head.contains(x));
                let i = choose|i: int| 0 <= i < head.len() && head[i] == x;
                assert(results[i] == x);
            } else {
                assert(results[results.len() - 1] == x);
            }
        }
        assert forall|x: MatchResultView| results.contains(x) implies
            #[trigger] spec_sort_desc(results).contains(x) by {
            let i = choose|i: int| 0 <= i < results.len() && results[i] == x;
            if i < results.len() - 1 {
                assert(head[i] == x);
                assert(head.contains(x));
            }
        }
    }
}

/// Inserting at the first position whose score is strictly lower is what
/// [`spec_insert_desc`] does.
proof fn lemma_insert_desc_at(sorted: Seq<MatchResultView>, m: MatchResultView, at: int)
    requires
        spec_sorted_desc(sorted),
        0 <= at <= sorted.len(),
        forall|k: int|
            0 <= k < at ==> (#[trigger] sorted[k]).compatibility_score >= m.compatibility_score,
        at < sorted.len() ==> sorted[at].compatibility_score < m.compatibility_score,
    ensures
        spec_insert_desc(sorted, m) == sorted.insert(at, m),
    decreases sorted.len(),
{
    if sorted.len() == 0 {
        assert(spec_insert_desc(sorted, m) =~= sorted.insert(0, m));
    } else if at == 0 {
        assert(sorted.first().compatibility_score < m.compatibility_score);
        assert(spec_insert_desc(sorted, m) =~= sorted.insert(0, m));
    } else {
        let tail = sorted.drop_first();
        assert(spec_sorted_desc(tail)) by {
            assert(forall|i: int| 0 <= i < tail.len() ==> tail[i] == sorted[i + 1]);
        }
        assert(forall|k: int|
            0 <= k < at - 1 ==> (#[trigger] tail[k]).compatibility_score
                >= m.compatibility_score) by {
            assert(forall|i: int| 0 <= i < tail.len() ==> tail[i] == sorted[i + 1]);
        }
        assert(at - 1 < tail.len() ==> tail[at - 1].compatibility_score
            < m.compatibility_score) by {
            assert(forall|i: int| 0 <= i < tail.len() ==> tail[i] == sorted[i + 1]);
        }
        lemma_insert_desc_at(tail, m, at - 1);
        assert(sorted[0].compatibility_score >= m.compatibility_score);
        assert(spec_insert_desc(sorted, m) =~= sorted.insert(at, m)) by {
            assert(spec_insert_desc(sorted, m) == seq![sorted.first()] + tail.insert(at - 1, m));
        }
    }
}

/// Sort the results by descending score; ties keep their input order.
fn sort_matches_desc(results: Vec<MatchResult>) -> (out: Vec<MatchResult>)
    ensures
        out.deep_view() == spec_sort_desc(results.deep_view()),
{
    let ghost orig = results.deep_view();
    let mut rest = results;
    let mut out: Vec<MatchResult> = Vec::new();
    while rest.len() > 0
        invariant
            rest.deep_view() =~= orig.skip(orig.len() - rest.deep_view().len()),
            out.deep_view() == spec_sort_desc(orig.take(orig.len() - rest.deep_view().len())),
            rest.deep_view().len() <= orig.len(),
            spec_sorted_desc(out.deep_view()),
        decreases rest.len(),
    {
        let ghost done = orig.len() - rest.deep_view().len();
        let ghost before = rest.deep_view();
        let m = rest.remove(0);
        proof {
            assert(before == orig.skip(done));
            assert(m.deep_view() == before[0]);
            assert(m.deep_view() == orig[done]);
            assert(rest.deep_view() =~= before.skip(1));
            assert(before.skip(1) =~= orig.skip(done + 1));
            assert(rest.deep_view() =~= orig.skip(done + 1));
        }
        let mut at: usize = 0;
        while at < out.len() && out[at].compatibility_score >= m.compatibility_score
            invariant
                at <= out.len(),
                forall|k: int|
                    0 <= k < at ==> (#[trigger] out.deep_view()[k]).compatibility_score
                        >= m.compatibility_score,
            decreases out.len() - at,
        {
            at = at + 1;
        }
        proof {
            lemma_insert_desc_at(out.deep_view(), m.deep_view(), at as int);
            lemma_insert_desc_ensures(out.deep_view(), m.deep_view());
        }
        let ghost out_before = out.deep_view();
        out.insert(at, m);
        proof {
            assert(out.deep_view() =~= out_before.insert(at as int, m.deep_view()));
            assert(orig.take(done + 1).drop_last() =~= orig.take(done));
            assert(orig.take(done + 1).last() == orig[done]);
            assert(out.deep_view() == spec_sort_desc(orig.take(done + 1)));
        }
    }
    proof {
        assert(orig.take(orig.len() as int) =~= orig);
    }
    out
}

/// Scores above this threshold count as good matches.
pub const GOOD_MATCH_THRESHOLD: u32 = 5000;

/// The results whose score exceeds the good-match threshold, in order.
pub open spec fn spec_good_matches(results: Seq<MatchResultView>) -> Seq<MatchResultView>
    decreases results.len(),
{
    if results.len() == 0 {
        Seq::empty()
    } else {
        let rest = spec_good_matches(results.drop_last());
        if results.last().compatibility_score > GOOD_MATCH_THRESHOLD {
            rest.push(results.last())
        } else {
            rest
        }
    }
}

/// Appending one result extends the good selection exactly when its score
/// exceeds the threshold.
proof fn lemma_good_matches_push(results: Seq<MatchResultView>, e: MatchResultView)
    ensures
        spec_good_matches(results.push(e)) == if e.compatibility_score > GOOD_MATCH_THRESHOLD {
            spec_good_matches(results).push(e)
        } else {
            spec_good_matches(results)
        },
{
    assert(results.push(e).drop_last() =~= results);
    assert(results.push(e).last() == e);
}

/// A scholarship passes the optional search filters: the country filter as a
/// case-insensitive substring of the scholarship's country, the degree
/// filter by membership, the field filter as a case-insensitive substring of
/// some eligible field.  Absent filters pass; the filters combine by and.
pub open spec fn spec_passes_filter(
    scholarship: Scholarship,
    country: Option<Seq<char>>,
    degree_level: Option<DegreeLevel>,
    field: Option<Seq<char>>,
) -> bool {
    &&& match country {
        Some(c) => contains_nocase(scholarship.country@, c),
        None => true,
    }
    &&& match degree_level {
        Some(d) => scholarship.degree_levels@.contains(d),
        None => true,
    }
    &&& match field {
        Some(f) => any_contains_nocase(scholarship.fields_of_study.deep_view(), f),
        None => true,
    }
}

/// The scholarships that pass the filters, in catalog order.
pub open spec fn spec_filter_scholarships(
    catalog: Seq<Scholarship>,
    country: Option<Seq<char>>,
    degree_level: Option<DegreeLevel>,
    field: Option<Seq<char>>,
) -> Seq<Scholarship>
    decreases catalog.len(),
{
    if catalog.len() == 0 {
        Seq::empty()
    } else {
        let rest = spec_filter_scholarships(catalog.drop_last(), country, degree_level, field);
        if spec_passes_filter(catalog.last(), country, degree_level, field) {
            rest.push(catalog.last())
        } else {
            rest
        }
    }
}

/// Appending one scholarship extends the selection exactly when it passes.
proof fn lemma_filter_scholarships_push(
    catalog: Seq<Scholarship>,
    country: Option<Seq<char>>,
    degree_level: Option<DegreeLevel>,
    field: Option<Seq<char>>,
    e: Scholarship,
)
    ensures
        spec_filter_scholarships(catalog.push(e), country, degree_level, field)
            == if spec_passes_filter(e, country, degree_level, field) {
            spec_filter_scholarships(catalog, country, degree_level, field).push(e)
        } else {
            spec_filter_scholarships(catalog, country, degree_level, field)
        },
{
    assert(catalog.push(e).drop_last() =~= catalog);
    assert(catalog.push(e).last() == e);
}

/// Whether a list of degree levels holds the given level.
fn contains_degree(levels: &Vec<DegreeLevel>, level: DegreeLevel) -> (r: bool)
    ensures
        r == levels@.contains(level),
{
    let mut i: usize = 0;
    while i < levels.len()
        invariant
            i <= levels.len(),
            forall|k: int| 0 <= k < i ==> levels@[k] != level,
        decreases levels.len() - i,
    {
        if levels[i] == level {
            return true;
        }
        i = i + 1;
    }
    false
}

impl MatchingEngine {
    /// Score one user against one scholarship.
    ///
    /// The result carries the compatibility score together with the matched
    /// and missing criteria in evaluation order; `current_year` drives the
    /// age and work-experience checks and `now` stamps the result.
    pub fn calculate_compatibility(
        user: &UserProfile,
        scholarship: &Scholarship,
        current_year: u32,
        now: u64,
    ) -> (result: MatchResult)
        ensures
            result.deep_view() == spec_match_of(*user, *scholarship, current_year, now),
            result.compatibility_score <= SCORE_UNIT,
    {
        let mut matched: Vec<Criterion> = Vec::new();
        let mut missing: Vec<Criterion> = Vec::new();
        let academic = Self::calculate_academic_match(user, scholarship, &mut matched, &mut missing);
        let field = Self::calculate_field_match(user, scholarship, &mut matched, &mut missing);
        let location = Self::calculate_location_match(user, scholarship, &mut matched, &mut missing);
        let eligibility = Self::calculate_eligibility_match(
            user,
            scholarship,
            current_year,
            &mut matched,
            &mut missing,
        );
        let skills = Self::calculate_skills_match(user, scholarship, &mut matched, &mut missing);
        proof {
            lemma_eligibility_score_bounded(*user, *scholarship, current_year);
            lemma_skills_score_bounded(*user, *scholarship);
        }
        let score = (academic * WEIGHT_ACADEMIC + field * WEIGHT_FIELD + location * WEIGHT_LOCATION
            + eligibility * WEIGHT_ELIGIBILITY + skills * WEIGHT_SKILLS) / 100;
        let result = MatchResult {
            scholarship_id: scholarship.id.clone(),
            user_id: user.id.clone(),
            compatibility_score: score,
            matched_criteria: matched,
            missing_criteria: missing,
            matched_at: now,
        };
        proof {
            assert(result.matched_criteria.deep_view() =~= spec_matched_criteria(
                *user,
                *scholarship,
                current_year,
            ));
            assert(result.missing_criteria.deep_view() =~= spec_missing_criteria(
                *user,
                *scholarship,
                current_year,
            ));
        }
        result
    }

    /// The academic sub-score, appending its matched and missing criteria.
    fn calculate_academic_match(
        user: &UserProfile,
        scholarship: &Scholarship,
        matched: &mut Vec<Criterion>,
        missing: &mut Vec<Criterion>,
    ) -> (score: u32)
        ensures
            score == spec_academic_score(*user, *scholarship),
            final(matched).deep_view() == old(matched).deep_view() + spec_academic_matched(
                *user,
                *scholarship,
            ),
            final(missing).deep_view() == old(missing).deep_view() + spec_academic_missing(
                *user,
                *scholarship,
            ),
    {
        let mut score: u32 = 0;
        if user.education.gpa >= scholarship.eligibility.min_gpa {
            score = score + 6000;
            matched.push(
                Criterion::GpaMet {
                    gpa: user.education.gpa,
                    min_gpa: scholarship.eligibility.min_gpa,
                },
            );
        } else {
            missing.push(
                Criterion::GpaBelow {
                    gpa: user.education.gpa,
                    min_gpa: scholarship.eligibility.min_gpa,
                },
            );
        }
        if contains_degree(&scholarship.degree_levels, user.education.degree_level) {
            score = score + 4000;
            matched.push(Criterion::DegreeEligible { level: user.education.degree_level });
        } else {
            missing.push(Criterion::DegreeNotEligible { level: user.education.degree_level });
        }
        proof {
            assert(matched.deep_view() =~= old(matched).deep_view() + spec_academic_matched(
                *user,
                *scholarship,
            ));
            assert(missing.deep_view() =~= old(missing).deep_view() + spec_academic_missing(
                *user,
                *scholarship,
            ));
        }
        score
    }

    /// The field-of-study sub-score, appending its criteria.
    fn calculate_field_match(
        user: &UserProfile,
        scholarship: &Scholarship,
        matched: &mut Vec<Criterion>,
        missing: &mut Vec<Criterion>,
    ) -> (score: u32)
        ensures
            score == spec_field_score(*user, *scholarship),
            final(matched).deep_view() == old(matched).deep_view() + spec_field_matched(
                *user,
                *scholarship,
            ),
            final(missing).deep_view() == old(missing).deep_view() + spec_field_missing(
                *user,
                *scholarship,
            ),
    {
        let ghost major = user.education.major@;
        let ghost dv = scholarship.fields_of_study.deep_view();
        let mut hits: Vec<String> = Vec::new();
        let mut i: usize = 0;
        while i < scholarship.fields_of_study.len()
            invariant
                i <= scholarship.fields_of_study.len(),
                major == user.education.major@,
                dv == scholarship.fields_of_study.deep_view(),
                hits.deep_view() == spec_similar_to(dv.take(i as int), major),
            decreases scholarship.fields_of_study.len() - i,
        {
            let hit = str_similar_nocase(
                scholarship.fields_of_study[i].as_str(),
                user.education.major.as_str(),
            );
            if hit {
                hits.push(scholarship.fields_of_study[i].clone());
            }
            proof {
                assert(dv.take(i + 1) =~= dv.take(i as int).push(dv[i as int]));
                lemma_similar_to_push(dv.take(i as int), major, dv[i as int]);
                assert(hits.deep_view() =~= spec_similar_to(dv.take(i + 1), major));
            }
            i = i + 1;
        }
        proof {
            assert(dv.take(scholarship.fields_of_study@.len() as int) =~= dv);
        }
        if hits.len() > 0 {
            matched.push(Criterion::FieldMatched { fields: hits });
            proof {
                assert(matched.deep_view() =~= old(matched).deep_view() + spec_field_matched(
                    *user,
                    *scholarship,
                ));
                assert(missing.deep_view() =~= old(missing).deep_view() + spec_field_missing(
                    *user,
                    *scholarship,
                ));
            }
            10000
        } else if scholarship.fields_of_study.len() == 0 {
            matched.push(Criterion::FieldUnrestricted);
            proof {
                assert(matched.deep_view() =~= old(matched).deep_view() + spec_field_matched(
                    *user,
                    *scholarship,
                ));
                assert(missing.deep_view() =~= old(missing).deep_view() + spec_field_missing(
                    *user,
                    *scholarship,
                ));
            }
            10000
        } else {
            missing.push(Criterion::FieldNotMatched { major: user.education.major.clone() });
            proof {
                assert(matched.deep_view() =~= old(matched).deep_view() + spec_field_matched(
                    *user,
                    *scholarship,
                ));
                assert(missing.deep_view() =~= old(missing).deep_view() + spec_field_missing(
                    *user,
                    *scholarship,
                ));
            }
            0
        }
    }

    /// The location sub-score, appending its criteria; it never reports a
    /// missing criterion.
    fn calculate_location_match(
        user: &UserProfile,
        scholarship: &Scholarship,
        matched: &mut Vec<Criterion>,
        missing: &mut Vec<Criterion>,
    ) -> (score: u32)
        ensures
            score == spec_location_score(*user, *scholarship),
            final(matched).deep_view() == old(matched).deep_view() + spec_location_matched(
                *user,
                *scholarship,
            ),
            *final(missing) == *old(missing),
    {
        let met = any_similar(&user.preferences.preferred_countries, scholarship.country.as_str());
        if met {
            matched.push(Criterion::CountryPreferred { country: scholarship.country.clone() });
            proof {
                assert(matched.deep_view() =~= old(matched).deep_view() + spec_location_matched(
                    *user,
                    *scholarship,
                ));
            }
            10000
        } else {
            proof {
                assert(matched.deep_view() =~= old(matched).deep_view() + spec_location_matched(
                    *user,
                    *scholarship,
                ));
            }
            if user.preferences.preferred_countries.len() == 0 {
                LOCATION_NO_PREFERENCE
            } else {
                LOCATION_PENALTY
            }
        }
    }

    /// The eligibility sub-score, appending its criteria.
    fn calculate_eligibility_match(
        user: &UserProfile,
        scholarship: &Scholarship,
        current_year: u32,
        matched: &mut Vec<Criterion>,
        missing: &mut Vec<Criterion>,
    ) -> (score: u32)
        ensures
            score == spec_eligibility_score(*user, *scholarship, current_year),
            final(matched).deep_view() == old(matched).deep_view() + spec_eligibility_matched(
                *user,
                *scholarship,
                current_year,
            ),
            final(missing).deep_view() == old(missing).deep_view() + spec_eligibility_missing(
                *user,
                *scholarship,
                current_year,
            ),
    {
        let mut passed: u32 = 0;
        let mut count: u32 = 1;
        let nat_ok = scholarship.eligibility.nationalities.len() == 0 || any_equal(
            &scholarship.eligibility.nationalities,
            &user.education.country,
        );
        if nat_ok {
            passed = passed + 1;
            matched.push(Criterion::NationalityEligible);
        } else {
            missing.push(Criterion::NationalityNotEligible);
        }
        match scholarship.eligibility.age_limit {
            Some(limit) => {
                count = count + 1;
                let estimated_age: i64 = current_year as i64 - user.education.graduation_year
                    as i64 + 22;
                if estimated_age <= limit as i64 {
                    passed = passed + 1;
                    matched.push(Criterion::AgeWithinLimit { estimated_age, age_limit: limit });
                } else {
                    missing.push(Criterion::AgeOverLimit { estimated_age, age_limit: limit });
                }
            },
            None => {},
        }
        if scholarship.eligibility.work_experience_years.is_some() {
            count = count + 1;
            if current_year > user.education.graduation_year {
                passed = passed + 1;
                matched.push(Criterion::WorkExperienceMet);
            } else {
                missing.push(Criterion::WorkExperienceNotMet);
            }
        }
        proof {
            assert(matched.deep_view() =~= old(matched).deep_view() + spec_eligibility_matched(
                *user,
                *scholarship,
                current_year,
            ));
            assert(missing.deep_view() =~= old(missing).deep_view() + spec_eligibility_missing(
                *user,
                *scholarship,
                current_year,
            ));
        }
        passed * 10000 / count
    }

    /// The skills sub-score, appending its criteria.
    fn calculate_skills_match(
        user: &UserProfile,
        scholarship: &Scholarship,
        matched: &mut Vec<Criterion>,
        missing: &mut Vec<Criterion>,
    ) -> (score: u32)
        ensures
            score == spec_skills_score(*user, *scholarship),
            final(matched).deep_view() == old(matched).deep_view() + spec_skills_matched(
                *user,
                *scholarship,
            ),
            final(missing).deep_view() == old(missing).deep_view() + spec_skills_missing(
                *user,
                *scholarship,
            ),
    {
        if scholarship.eligibility.required_skills.len() == 0 {
            proof {
                assert(matched.deep_view() =~= old(matched).deep_view() + spec_skills_matched(
                    *user,
                    *scholarship,
                ));
                assert(missing.deep_view() =~= old(missing).deep_view() + spec_skills_missing(
                    *user,
                    *scholarship,
                ));
            }
            return 10000;
        }
        let ghost req = scholarship.eligibility.required_skills.deep_view();
        let ghost us = user.skills.deep_view();
        let mut hit: Vec<String> = Vec::new();
        let mut miss: Vec<String> = Vec::new();
        let mut i: usize = 0;
        while i < scholarship.eligibility.required_skills.len()
            invariant
                i <= scholarship.eligibility.required_skills.len(),
                req == scholarship.eligibility.required_skills.deep_view(),
                us == user.skills.deep_view(),
                hit.deep_view() == spec_skills_hit(req.take(i as int), us),
                miss.deep_view() == spec_skills_miss(req.take(i as int), us),
            decreases scholarship.eligibility.required_skills.len() - i,
        {
            let ok = any_similar(
                &user.skills,
                scholarship.eligibility.required_skills[i].as_str(),
            );
            if ok {
                hit.push(scholarship.eligibility.required_skills[i].clone());
            } else {
                miss.push(scholarship.eligibility.required_skills[i].clone());
            }
            proof {
                assert(req.take(i + 1) =~= req.take(i as int).push(req[i as int]));
                lemma_skills_push(req.take(i as int), us, req[i as int]);
                assert(hit.deep_view() =~= spec_skills_hit(req.take(i + 1), us));
                assert(miss.deep_view() =~= spec_skills_miss(req.take(i + 1), us));
            }
            i = i + 1;
        }
        proof {
            assert(req.take(scholarship.eligibility.required_skills@.len() as int) =~= req);
            lemma_skills_split(req, us);
        }
        let hits = hit.len();
        let score: u32 = ((hits as u128) * 10000 / (
        scholarship.eligibility.required_skills.len() as u128)) as u32;
        proof {
            assert(spec_skills_hit(req, us).len() * 10000 / req.len() <= 10000) by (nonlinear_arith)
                requires
                    spec_skills_hit(req, us).len() <= req.len(),
                    req.len() > 0,
            ;
        }
        if hit.len() > 0 {
            matched.push(Criterion::SkillsMatched { skills: hit });
        }
        if miss.len() > 0 {
            missing.push(Criterion::SkillsMissing { skills: miss });
        }
        proof {
            assert(matched.deep_view() =~= old(matched).deep_view() + spec_skills_matched(
                *user,
                *scholarship,
            ));
            assert(missing.deep_view() =~= old(missing).deep_view() + spec_skills_missing(
                *user,
                *scholarship,
            ));
        }
        score
    }

    /// The match of every catalog scholarship, in catalog order.
    fn all_matches(
        user: &UserProfile,
        catalog: &Vec<Scholarship>,
        current_year: u32,
        now: u64,
    ) -> (results: Vec<MatchResult>)
        ensures
            results.deep_view() == spec_all_matches(*user, catalog@, current_year, now),
    {
        let mut results: Vec<MatchResult> = Vec::new();
        let mut i: usize = 0;
        while i < catalog.len()
            invariant
                i <= catalog.len(),
                results.deep_view() == spec_all_matches(
                    *user,
                    catalog@.take(i as int),
                    current_year,
                    now,
                ),
            decreases catalog.len() - i,
        {
            let m = Self::calculate_compatibility(user, &catalog[i], current_year, now);
            let ghost prev = results.deep_view();
            let ghost mv = m.deep_view();
            results.push(m);
            proof {
                assert(mv == spec_match_of(*user, catalog@[i as int], current_year, now));
                assert(results.deep_view() =~= prev.push(mv));
                assert(spec_all_matches(*user, catalog@.take(i + 1), current_year, now) =~= prev.push(
                    mv,
                ));
            }
            i = i + 1;
        }
        proof {
            assert(catalog@.take(catalog@.len() as int) =~= catalog@);
        }
        results
    }

    /// The top scholarship recommendations for a user: every catalog
    /// scholarship scored, sorted by descending score with ties in catalog
    /// order, cut to the first `top_n`.
    pub fn get_recommendations(
        user: &UserProfile,
        catalog: &Vec<Scholarship>,
        current_year: u32,
        now: u64,
        top_n: usize,
    ) -> (results: Vec<MatchResult>)
        ensures
            results.deep_view() == spec_sort_desc(
                spec_all_matches(*user, catalog@, current_year, now),
            ).take(min(top_n as int, catalog@.len() as int)),
    {
        let all = Self::all_matches(user, catalog, current_year, now);
        let ghost all_results = spec_all_matches(*user, catalog@, current_year, now);
        let mut sorted = sort_matches_desc(all);
        proof {
            lemma_sort_desc_ensures(all_results);
        }
        sorted.truncate(top_n);
        proof {
            assert(sorted.deep_view() =~= spec_sort_desc(all_results).take(
                min(top_n as int, catalog@.len() as int),
            ));
        }
        sorted
    }

    /// The results whose score exceeds the good-match threshold, in catalog
    /// order.
    pub fn get_good_matches(
        user: &UserProfile,
        catalog: &Vec<Scholarship>,
        current_year: u32,
        now: u64,
    ) -> (results: Vec<MatchResult>)
        ensures
            results.deep_view() == spec_good_matches(
                spec_all_matches(*user, catalog@, current_year, now),
            ),
    {
        let mut results: Vec<MatchResult> = Vec::new();
        let mut i: usize = 0;
        while i < catalog.len()
            invariant
                i <= catalog.len(),
                results.deep_view() == spec_good_matches(
                    spec_all_matches(*user, catalog@.take(i as int), current_year, now),
                ),
            decreases catalog.len() - i,
        {
            let m = Self::calculate_compatibility(user, &catalog[i], current_year, now);
            proof {
                assert(spec_all_matches(*user, catalog@.take(i + 1), current_year, now)
                    =~= spec_all_matches(*user, catalog@.take(i as int), current_year, now).push(
                    m.deep_view(),
                ));
                lemma_good_matches_push(
                    spec_all_matches(*user, catalog@.take(i as int), current_year, now),
                    m.deep_view(),
                );
            }
            if m.compatibility_score > GOOD_MATCH_THRESHOLD {
                results.push(m);
            }
            i = i + 1;
        }
        proof {
            assert(catalog@.take(catalog@.len() as int) =~= catalog@);
        }
        results
    }

    /// The scholarships that pass the optional filters, in catalog order.
    pub fn filter_scholarships(
        catalog: Vec<Scholarship>,
        country: Option<String>,
        degree_level: Option<DegreeLevel>,
        field: Option<String>,
    ) -> (results: Vec<Scholarship>)
        ensures
            results@ == spec_filter_scholarships(
                catalog@,
                country.deep_view(),
                degree_level,
                field.deep_view(),
            ),
    {
        let ghost orig = catalog@;
        let mut rest = catalog;
        let mut results: Vec<Scholarship> = Vec::new();
        while rest.len() > 0
            invariant
                rest@.len() <= orig.len(),
                rest@ == orig.skip(orig.len() - rest@.len()),
                results@ == spec_filter_scholarships(
                    orig.take(orig.len() - rest@.len()),
                    country.deep_view(),
                    degree_level,
                    field.deep_view(),
                ),
            decreases rest.len(),
        {
            let ghost done = orig.len() - rest@.len();
            let ghost before = rest@;
            let s = rest.remove(0);
            proof {
                assert(s == orig[done]);
                assert(rest@ =~= before.skip(1));
                assert(rest@ =~= orig.skip(done + 1));
            }
            let pass_country = match &country {
                Some(c) => str_contains_nocase(s.country.as_str(), c.as_str()),
                None => true,
            };
            let pass_degree = match degree_level {
                Some(d) => contains_degree(&s.degree_levels, d),
                None => true,
            };
            let pass_field = match &field {
                Some(f) => any_contains(&s.fields_of_study, f.as_str()),
                None => true,
            };
            proof {
                assert((pass_country && pass_degree && pass_field) == spec_passes_filter(
                    s,
                    country.deep_view(),
                    degree_level,
                    field.deep_view(),
                ));
                assert(orig.take(done + 1).drop_last() =~= orig.take(done));
                lemma_filter_scholarships_push(
                    orig.take(done),
                    country.deep_view(),
                    degree_level,
                    field.deep_view(),
                    s,
                );
                assert(orig.take(done).push(s) =~= orig.take(done + 1));
            }
            if pass_country && pass_degree && pass_field {
                results.push(s);
            }
        }
        proof {
            assert(orig.take(orig.len() as int) =~= orig);
        }
        results
    }
}

/// What [`MatchingEngine::get_recommendations`] promises: at most `top_n`
/// results, sorted by descending score, each the match of some catalog
/// scholarship.
pub proof fn lemma_recommendations_law(
    user: UserProfile,
    catalog: Seq<Scholarship>,
    current_year: u32,
    now: u64,
    top_n: usize,
    results: Seq<MatchResultView>,
)
    requires
        results == spec_sort_desc(spec_all_matches(user, catalog, current_year, now)).take(
            min(top_n as int, catalog.len() as int),
        ),
    ensures
        results.len() <= top_n,
        spec_sorted_desc(results),
        forall|k: int|
            0 <= k < results.len() ==> exists|i: int|
                0 <= i < catalog.len() && (#[trigger] results[k]) == spec_match_of(
                    user,
                    catalog[i],
                    current_year,
                    now,
                ),
{
    let all = spec_all_matches(user, catalog, current_year, now);
    let sorted = spec_sort_desc(all);
    lemma_sort_desc_ensures(all);
    assert forall|k: int| 0 <= k < results.len() implies exists|i: int|
        0 <= i < catalog.len() && (#[trigger] results[k]) == spec_match_of(
            user,
            catalog[i],
            current_year,
            now,
        ) by {
        assert(results[k] == sorted[k]);
        assert(sorted.contains(sorted[k]));
        assert(all.contains(sorted[k]));
        let i = choose|i: int| 0 <= i < all.len() && all[i] == sorted[k];
        assert(all[i] == spec_match_of(user, catalog[i], current_year, now));
    }
}

} // verus!
