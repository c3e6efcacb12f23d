use scholarship_backend::matching::MatchingEngine;
use scholarship_backend::types::{
    Benefits, Coverage, Criterion, DegreeLevel, Education, Eligibility, Preferences, Scholarship,
    ScholarshipType, UserProfile,
};

const CURRENT_YEAR: u32 = 2025;
const NOW: u64 = 1_750_000_000;

fn base_user() -> UserProfile {
    UserProfile {
        id: "user-1".to_string(),
        name: "Ayu".to_string(),
        email: "ayu@example.com".to_string(),
        education: Education {
            degree_level: DegreeLevel::Master,
            major: "Computer Science".to_string(),
            university: "State University".to_string(),
            gpa: 380,
            graduation_year: 2023,
            country: "Indonesia".to_string(),
        },
        skills: vec!["English".to_string(), "Programming".to_string()],
        preferences: Preferences {
            preferred_countries: vec!["Japan".to_string()],
            preferred_fields: vec!["Computer Science".to_string()],
            scholarship_type: ScholarshipType::FullScholarship,
            min_amount: None,
        },
        created_at: 0,
        updated_at: 0,
    }
}

fn base_scholarship() -> Scholarship {
    Scholarship {
        id: "sch-1".to_string(),
        name: "Sakura Graduate Award".to_string(),
        provider: "Sakura Foundation".to_string(),
        country: "Japan".to_string(),
        scholarship_type: ScholarshipType::FullScholarship,
        degree_levels: vec![DegreeLevel::Master],
        fields_of_study: vec!["Computer Science".to_string()],
        eligibility: Eligibility {
            min_gpa: 300,
            required_degree: None,
            age_limit: None,
            nationalities: vec![],
            required_skills: vec!["English".to_string()],
            work_experience_years: None,
        },
        benefits: Benefits {
            tuition_coverage: Coverage::Full,
            living_allowance: Some(1500),
            travel_allowance: true,
            health_insurance: true,
            duration_months: 24,
        },
        deadline: 1_767_225_600,
        application_url: "https://example.com/apply".to_string(),
        description: "A full graduate scholarship".to_string(),
        created_at: 0,
    }
}

fn score(user: &UserProfile, scholarship: &Scholarship) -> u32 {
    MatchingEngine::calculate_compatibility(user, scholarship, CURRENT_YEAR, NOW)
        .compatibility_score
}

#[test]
fn perfect_match_scores_full() {
    let user = base_user();
    let scholarship = base_scholarship();
    let result = MatchingEngine::calculate_compatibility(&user, &scholarship, CURRENT_YEAR, NOW);
    assert_eq!(result.compatibility_score, 10_000);
    assert_eq!(result.scholarship_id, "sch-1");
    assert_eq!(result.user_id, "user-1");
    assert_eq!(result.matched_at, NOW);
    assert_eq!(
        result.matched_criteria,
        vec![
            Criterion::GpaMet { gpa: 380, min_gpa: 300 },
            Criterion::DegreeEligible { level: DegreeLevel::Master },
            Criterion::FieldMatched { fields: vec!["Computer Science".to_string()] },
            Criterion::CountryPreferred { country: "Japan".to_string() },
            Criterion::NationalityEligible,
            Criterion::SkillsMatched { skills: vec!["English".to_string()] },
        ]
    );
    assert_eq!(result.missing_criteria, vec![]);
}

#[test]
fn gpa_shortfall_scores_partial() {
    let user = base_user();
    let mut scholarship = base_scholarship();
    scholarship.eligibility.min_gpa = 390;
    let result = MatchingEngine::calculate_compatibility(&user, &scholarship, CURRENT_YEAR, NOW);
    // Academic drops to 4000 of 10000, so the total drops by 25% of 6000.
    assert_eq!(result.compatibility_score, 8_500);
    assert_eq!(
        result.missing_criteria,
        vec![Criterion::GpaBelow { gpa: 380, min_gpa: 390 }]
    );
}

#[test]
fn scoring_is_deterministic() {
    let user = base_user();
    let mut scholarship = base_scholarship();
    scholarship.eligibility.min_gpa = 390;
    scholarship.eligibility.required_skills =
        vec!["English".to_string(), "Rust".to_string()];
    let first = MatchingEngine::calculate_compatibility(&user, &scholarship, CURRENT_YEAR, NOW);
    let second = MatchingEngine::calculate_compatibility(&user, &scholarship, CURRENT_YEAR, NOW);
    assert_eq!(first, second);
}

#[test]
fn unrestricted_fields_score_full() {
    let user = base_user();
    let mut scholarship = base_scholarship();
    scholarship.fields_of_study = vec![];
    let result = MatchingEngine::calculate_compatibility(&user, &scholarship, CURRENT_YEAR, NOW);
    assert_eq!(result.compatibility_score, 10_000);
    assert!(result
        .matched_criteria
        .contains(&Criterion::FieldUnrestricted));
}

#[test]
fn field_mismatch_loses_field_weight() {
    let user = base_user();
    let mut scholarship = base_scholarship();
    scholarship.fields_of_study = vec!["History".to_string()];
    let result = MatchingEngine::calculate_compatibility(&user, &scholarship, CURRENT_YEAR, NOW);
    assert_eq!(result.compatibility_score, 8_000);
    assert!(result.missing_criteria.contains(&Criterion::FieldNotMatched {
        major: "Computer Science".to_string()
    }));
}

#[test]
fn no_country_preference_scores_middle() {
    let mut user = base_user();
    user.preferences.preferred_countries = vec![];
    let scholarship = base_scholarship();
    // Location contributes 7500 of 10000 at weight 30: 2250 instead of 3000.
    assert_eq!(score(&user, &scholarship), 9_250);
}

#[test]
fn unmatched_country_preference_is_penalized() {
    let mut user = base_user();
    user.preferences.preferred_countries = vec!["Germany".to_string()];
    let scholarship = base_scholarship();
    // Location contributes 3000 of 10000 at weight 30: 900 instead of 3000.
    assert_eq!(score(&user, &scholarship), 7_900);
}

#[test]
fn country_matches_case_insensitively_and_by_substring() {
    let mut user = base_user();
    user.preferences.preferred_countries = vec!["japan".to_string()];
    assert_eq!(score(&user, &base_scholarship()), 10_000);
    user.preferences.preferred_countries = vec!["Jap".to_string()];
    assert_eq!(score(&user, &base_scholarship()), 10_000);
    user.preferences.preferred_countries = vec!["Empire of Japan".to_string()];
    assert_eq!(score(&user, &base_scholarship()), 10_000);
}

#[test]
fn no_required_skills_scores_full() {
    let user = base_user();
    let mut scholarship = base_scholarship();
    scholarship.eligibility.required_skills = vec![];
    let result = MatchingEngine::calculate_compatibility(&user, &scholarship, CURRENT_YEAR, NOW);
    assert_eq!(result.compatibility_score, 10_000);
    assert!(!result
        .matched_criteria
        .iter()
        .any(|c| matches!(c, Criterion::SkillsMatched { .. })));
}

#[test]
fn partial_skills_score_by_fraction() {
    let user = base_user();
    let mut scholarship = base_scholarship();
    scholarship.eligibility.required_skills = vec![
        "English".to_string(),
        "Rust".to_string(),
        "Public Speaking".to_string(),
    ];
    let result = MatchingEngine::calculate_compatibility(&user, &scholarship, CURRENT_YEAR, NOW);
    // One of three required skills: 3333 of 10000 at weight 10.
    assert_eq!(result.compatibility_score, 9_333);
    assert!(result.missing_criteria.contains(&Criterion::SkillsMissing {
        skills: vec!["Rust".to_string(), "Public Speaking".to_string()]
    }));
}

#[test]
fn skills_match_by_substring_either_way() {
    let user = base_user();
    let mut scholarship = base_scholarship();
    scholarship.eligibility.required_skills = vec!["program".to_string()];
    assert_eq!(score(&user, &scholarship), 10_000);
    scholarship.eligibility.required_skills = vec!["Programming Languages".to_string()];
    assert_eq!(score(&user, &scholarship), 10_000);
}

#[test]
fn age_limit_within_and_over() {
    let user = base_user();
    let mut scholarship = base_scholarship();
    // Estimated age: 2025 - 2023 + 22 = 24.
    scholarship.eligibility.age_limit = Some(24);
    let within = MatchingEngine::calculate_compatibility(&user, &scholarship, CURRENT_YEAR, NOW);
    assert_eq!(within.compatibility_score, 10_000);
    assert!(within.matched_criteria.contains(&Criterion::AgeWithinLimit {
        estimated_age: 24,
        age_limit: 24
    }));

    scholarship.eligibility.age_limit = Some(23);
    let over = MatchingEngine::calculate_compatibility(&user, &scholarship, CURRENT_YEAR, NOW);
    // Eligibility drops to 1 of 2 checks: 5000 of 10000 at weight 15.
    assert_eq!(over.compatibility_score, 9_250);
    assert!(over.missing_criteria.contains(&Criterion::AgeOverLimit {
        estimated_age: 24,
        age_limit: 23
    }));
}

#[test]
fn work_experience_requires_graduation() {
    let mut user = base_user();
    let mut scholarship = base_scholarship();
    scholarship.eligibility.work_experience_years = Some(2);
    let met = MatchingEngine::calculate_compatibility(&user, &scholarship, CURRENT_YEAR, NOW);
    assert_eq!(met.compatibility_score, 10_000);
    assert!(met.matched_criteria.contains(&Criterion::WorkExperienceMet));

    user.education.graduation_year = 2026;
    let not_met = MatchingEngine::calculate_compatibility(&user, &scholarship, CURRENT_YEAR, NOW);
    assert_eq!(not_met.compatibility_score, 9_250);
    assert!(not_met
        .missing_criteria
        .contains(&Criterion::WorkExperienceNotMet));
}

#[test]
fn nationality_matches_exact_tokens_only() {
    let user = base_user();
    let mut scholarship = base_scholarship();
    scholarship.eligibility.nationalities = vec!["Indonesia".to_string()];
    assert_eq!(score(&user, &scholarship), 10_000);
    // The nationality check is case-sensitive and exact.
    scholarship.eligibility.nationalities = vec!["indonesia".to_string()];
    assert_eq!(score(&user, &scholarship), 8_500);
}

#[test]
fn future_graduation_year_does_not_panic() {
    let mut user = base_user();
    user.education.graduation_year = 3000;
    let mut scholarship = base_scholarship();
    scholarship.eligibility.age_limit = Some(25);
    // Estimated age is far negative, which passes the inclusive limit.
    let result = MatchingEngine::calculate_compatibility(&user, &scholarship, CURRENT_YEAR, NOW);
    assert_eq!(result.compatibility_score, 10_000);
}

#[test]
fn scores_stay_within_unit_range() {
    let mut user = base_user();
    user.preferences.preferred_countries = vec!["Nowhere".to_string()];
    user.skills = vec![];
    let mut scholarship = base_scholarship();
    scholarship.eligibility.min_gpa = 400;
    scholarship.degree_levels = vec![DegreeLevel::PhD];
    scholarship.fields_of_study = vec!["History".to_string()];
    scholarship.eligibility.nationalities = vec!["Elsewhere".to_string()];
    scholarship.eligibility.required_skills = vec!["Quantum Computing".to_string()];
    scholarship.eligibility.age_limit = Some(10);
    scholarship.eligibility.work_experience_years = Some(5);
    let low = score(&user, &scholarship);
    assert!(low <= 10_000);
    // Everything fails but the work-experience check: eligibility is 1 of 3.
    assert_eq!(low, 900 + 3_333 * 15 / 100);
    assert!(score(&base_user(), &base_scholarship()) <= 10_000);
}

#[test]
fn raising_gpa_over_the_bar_never_lowers_the_score() {
    let mut below = base_user();
    below.education.gpa = 289;
    let above = base_user();
    let scholarship = base_scholarship();
    let low = score(&below, &scholarship);
    let high = score(&above, &scholarship);
    assert!(low <= high);
    // The academic sub-score gains exactly the 60% grade part.
    assert_eq!(high - low, 6_000 * 25 / 100);
}
