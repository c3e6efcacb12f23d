use scholarship_backend::matching::MatchingEngine;
use scholarship_backend::storage::Store;
use scholarship_backend::types::{
    Benefits, Coverage, DegreeLevel, Education, Eligibility, Preferences, Scholarship,
    ScholarshipError, ScholarshipType, Status, UserProfile,
};

const CURRENT_YEAR: u32 = 2025;
const NOW: u64 = 1_750_000_000;

fn education() -> Education {
    Education {
        degree_level: DegreeLevel::Master,
        major: "Computer Science".to_string(),
        university: "State University".to_string(),
        gpa: 380,
        graduation_year: 2023,
        country: "Indonesia".to_string(),
    }
}

fn preferences() -> Preferences {
    Preferences {
        preferred_countries: vec!["Japan".to_string()],
        preferred_fields: vec!["Computer Science".to_string()],
        scholarship_type: ScholarshipType::FullScholarship,
        min_amount: None,
    }
}

fn scholarship(id: &str) -> Scholarship {
    Scholarship {
        id: id.to_string(),
        name: format!("Award {}", id),
        provider: "Foundation".to_string(),
        country: "Japan".to_string(),
        scholarship_type: ScholarshipType::FullScholarship,
        degree_levels: vec![DegreeLevel::Master],
        fields_of_study: vec!["Computer Science".to_string()],
        eligibility: Eligibility {
            min_gpa: 300,
            required_degree: None,
            age_limit: None,
            nationalities: vec![],
            required_skills: vec!["English".to_string()],
            work_experience_years: None,
        },
        benefits: Benefits {
            tuition_coverage: Coverage::Partial(80),
            living_allowance: None,
            travel_allowance: false,
            health_insurance: true,
            duration_months: 12,
        },
        deadline: 1_767_225_600,
        application_url: "https://example.com/apply".to_string(),
        description: "An award".to_string(),
        created_at: 0,
    }
}

fn registered_store() -> Store {
    let mut store = Store::new();
    store
        .register_user(
            "user-1".to_string(),
            "Ayu".to_string(),
            "ayu@example.com".to_string(),
            education(),
            vec!["English".to_string(), "Programming".to_string()],
            preferences(),
            NOW,
        )
        .unwrap();
    store
}

#[test]
fn register_then_get_user() {
    let store = registered_store();
    let user = store.get_user(&"user-1".to_string()).unwrap();
    assert_eq!(user.name, "Ayu");
    assert_eq!(user.education.gpa, 380);
    assert_eq!(user.created_at, NOW);
    assert!(store.get_user(&"user-2".to_string()).is_none());
}

#[test]
fn register_twice_reports_already_exists() {
    let mut store = registered_store();
    let again = store.register_user(
        "user-1".to_string(),
        "Ayu".to_string(),
        "ayu@example.com".to_string(),
        education(),
        vec![],
        preferences(),
        NOW + 1,
    );
    assert_eq!(again, Err(ScholarshipError::AlreadyExists));
    assert_eq!(store.get_user(&"user-1".to_string()).unwrap().created_at, NOW);
}

#[test]
fn update_profile_changes_only_provided_fields() {
    let mut store = registered_store();
    store
        .update_user_profile(
            &"user-1".to_string(),
            Some("Ayu Lestari".to_string()),
            None,
            None,
            None,
            None,
            NOW + 5,
        )
        .unwrap();
    let user = store.get_user(&"user-1".to_string()).unwrap();
    assert_eq!(user.name, "Ayu Lestari");
    assert_eq!(user.email, "ayu@example.com");
    assert_eq!(user.education.major, "Computer Science");
    assert_eq!(user.updated_at, NOW + 5);
    assert_eq!(user.created_at, NOW);
}

#[test]
fn update_profile_of_unknown_user_reports_not_found() {
    let mut store = Store::new();
    let missing = store.update_user_profile(
        &"ghost".to_string(),
        Some("Name".to_string()),
        None,
        None,
        None,
        None,
        NOW,
    );
    assert_eq!(missing, Err(ScholarshipError::NotFound));
}

#[test]
fn scholarships_keep_catalog_order_and_upsert_by_id() {
    let mut store = Store::new();
    store.insert_scholarship(scholarship("a")).unwrap();
    store.insert_scholarship(scholarship("b")).unwrap();
    let mut replacement = scholarship("a");
    replacement.name = "Renamed Award".to_string();
    store.insert_scholarship(replacement).unwrap();
    assert_eq!(store.count_scholarships(), 2);
    let all = store.get_all_scholarships();
    assert_eq!(all[0].id, "a");
    assert_eq!(all[0].name, "Renamed Award");
    assert_eq!(all[1].id, "b");
    assert_eq!(
        store.get_scholarship(&"a".to_string()).unwrap().name,
        "Renamed Award"
    );
    assert!(store.get_scholarship(&"c".to_string()).is_none());
}

#[test]
fn application_lifecycle() {
    let mut store = registered_store();
    store.insert_scholarship(scholarship("a")).unwrap();

    let unknown_scholarship = store.create_application(
        "app-1".to_string(),
        "user-1".to_string(),
        "missing".to_string(),
        "notes".to_string(),
        NOW,
    );
    assert_eq!(unknown_scholarship, Err(ScholarshipError::NotFound));

    let unknown_user = store.create_application(
        "app-1".to_string(),
        "ghost".to_string(),
        "a".to_string(),
        "notes".to_string(),
        NOW,
    );
    assert_eq!(unknown_user, Err(ScholarshipError::NotFound));

    store
        .create_application(
            "app-1".to_string(),
            "user-1".to_string(),
            "a".to_string(),
            "first try".to_string(),
            NOW,
        )
        .unwrap();
    let apps = store.get_user_applications(&"user-1".to_string());
    assert_eq!(apps.len(), 1);
    assert_eq!(apps[0].status, Status::InProgress);
    assert_eq!(apps[0].notes, "first try");

    store
        .update_application_status(&"app-1".to_string(), Status::Submitted, NOW + 9)
        .unwrap();
    let apps = store.get_user_applications(&"user-1".to_string());
    assert_eq!(apps[0].status, Status::Submitted);
    assert_eq!(apps[0].updated_at, NOW + 9);
    assert_eq!(apps[0].created_at, NOW);

    let missing = store.update_application_status(&"nope".to_string(), Status::Accepted, NOW);
    assert_eq!(missing, Err(ScholarshipError::NotFound));
}

#[test]
fn bookmarks_list_only_bookmarked_scholarships() {
    let mut store = registered_store();
    store.insert_scholarship(scholarship("a")).unwrap();
    store.insert_scholarship(scholarship("b")).unwrap();

    let unknown = store.bookmark_scholarship(
        "bm-1".to_string(),
        "user-1".to_string(),
        "missing".to_string(),
        NOW,
    );
    assert_eq!(unknown, Err(ScholarshipError::NotFound));

    store
        .bookmark_scholarship("bm-1".to_string(), "user-1".to_string(), "a".to_string(), NOW)
        .unwrap();
    store
        .create_application(
            "app-1".to_string(),
            "user-1".to_string(),
            "b".to_string(),
            "notes".to_string(),
            NOW,
        )
        .unwrap();
    let bookmarks = store.get_user_bookmarks(&"user-1".to_string());
    assert_eq!(bookmarks, vec!["a".to_string()]);
    let apps = store.get_user_applications(&"user-1".to_string());
    assert_eq!(apps.len(), 2);
    assert_eq!(apps[0].notes, "Bookmarked by user");
}

#[test]
fn match_cache_is_keyed_by_user_and_scholarship() {
    let mut store = registered_store();
    store.insert_scholarship(scholarship("a")).unwrap();
    let user = store.get_user(&"user-1".to_string()).unwrap().clone();
    let first =
        MatchingEngine::calculate_compatibility(&user, &store.get_all_scholarships()[0], CURRENT_YEAR, NOW);
    let mut second = first.clone();
    second.matched_at = NOW + 100;
    store.insert_match(first).unwrap();
    store.insert_match(second).unwrap();
    let cached = store.get_user_matches(&"user-1".to_string());
    assert_eq!(cached.len(), 1);
    assert_eq!(cached[0].matched_at, NOW + 100);
    assert_eq!(store.get_user_matches(&"someone-else".to_string()).len(), 0);
}

#[test]
fn recommendations_come_sorted_and_cut_to_the_limit() {
    let mut store = registered_store();
    // Full match: 10000.
    store.insert_scholarship(scholarship("best")).unwrap();
    // Wrong field: 8000.
    let mut other_field = scholarship("other-field");
    other_field.fields_of_study = vec!["History".to_string()];
    store.insert_scholarship(other_field).unwrap();
    // Higher bar on the grade: 8500.
    let mut high_bar = scholarship("high-bar");
    high_bar.eligibility.min_gpa = 390;
    store.insert_scholarship(high_bar).unwrap();

    let top = store.recommend(&"user-1".to_string(), 2, CURRENT_YEAR, NOW);
    assert_eq!(top.len(), 2);
    assert_eq!(top[0].scholarship_id, "best");
    assert_eq!(top[0].compatibility_score, 10_000);
    assert_eq!(top[1].scholarship_id, "high-bar");
    assert_eq!(top[1].compatibility_score, 8_500);

    let all = store.recommend(&"user-1".to_string(), 10, CURRENT_YEAR, NOW);
    assert_eq!(all.len(), 3);
    assert!(all[0].compatibility_score >= all[1].compatibility_score);
    assert!(all[1].compatibility_score >= all[2].compatibility_score);
}

#[test]
fn recommendations_keep_catalog_order_on_ties() {
    let mut store = registered_store();
    store.insert_scholarship(scholarship("first")).unwrap();
    store.insert_scholarship(scholarship("second")).unwrap();
    let top = store.recommend(&"user-1".to_string(), 5, CURRENT_YEAR, NOW);
    assert_eq!(top.len(), 2);
    assert_eq!(top[0].scholarship_id, "first");
    assert_eq!(top[1].scholarship_id, "second");
}

#[test]
fn recommendations_for_unknown_user_or_empty_catalog_are_empty() {
    let store = registered_store();
    assert!(store
        .recommend(&"ghost".to_string(), 5, CURRENT_YEAR, NOW)
        .is_empty());
    assert!(store
        .recommend(&"user-1".to_string(), 5, CURRENT_YEAR, NOW)
        .is_empty());
}

#[test]
fn my_matches_keeps_only_scores_strictly_above_the_threshold() {
    let mut store = Store::new();
    // A user with no country preference against a mismatched scholarship
    // scores exactly 5000, which the strict threshold excludes.
    store
        .register_user(
            "user-1".to_string(),
            "Ayu".to_string(),
            "ayu@example.com".to_string(),
            education(),
            vec!["English".to_string(), "Programming".to_string()],
            Preferences {
                preferred_countries: vec![],
                preferred_fields: vec![],
                scholarship_type: ScholarshipType::FullScholarship,
                min_amount: None,
            },
            NOW,
        )
        .unwrap();
    let mut boundary = scholarship("boundary");
    boundary.fields_of_study = vec!["History".to_string()];
    boundary.eligibility.nationalities = vec!["Elsewhere".to_string()];
    boundary.eligibility.required_skills = vec![
        "English".to_string(),
        "Sailing".to_string(),
        "Welding".to_string(),
        "Quantum Computing".to_string(),
    ];
    store.insert_scholarship(boundary).unwrap();
    store.insert_scholarship(scholarship("good")).unwrap();

    let matches = store.my_matches(&"user-1".to_string(), CURRENT_YEAR, NOW);
    assert_eq!(matches.len(), 1);
    assert_eq!(matches[0].scholarship_id, "good");
    // The boundary scholarship really scores exactly at the threshold.
    let all = store.recommend(&"user-1".to_string(), 10, CURRENT_YEAR, NOW);
    let boundary_score = all
        .iter()
        .find(|m| m.scholarship_id == "boundary")
        .unwrap()
        .compatibility_score;
    assert_eq!(boundary_score, 5_000);
}

#[test]
fn score_one_reports_the_missing_entity() {
    let mut store = registered_store();
    store.insert_scholarship(scholarship("a")).unwrap();
    let ok = store
        .score_one(&"user-1".to_string(), &"a".to_string(), CURRENT_YEAR, NOW)
        .unwrap();
    assert_eq!(ok.compatibility_score, 10_000);
    assert_eq!(
        store.score_one(&"ghost".to_string(), &"a".to_string(), CURRENT_YEAR, NOW),
        Err(ScholarshipError::NotFound)
    );
    assert_eq!(
        store.score_one(&"user-1".to_string(), &"zzz".to_string(), CURRENT_YEAR, NOW),
        Err(ScholarshipError::NotFound)
    );
}

#[test]
fn filter_scholarships_applies_all_given_filters() {
    let mut catalog = Vec::new();
    catalog.push(scholarship("a"));
    let mut german = scholarship("b");
    german.country = "Germany".to_string();
    catalog.push(german);
    let mut bachelor = scholarship("c");
    bachelor.degree_levels = vec![DegreeLevel::Bachelor];
    catalog.push(bachelor);

    let by_country = MatchingEngine::filter_scholarships(
        catalog.clone(),
        Some("japan".to_string()),
        None,
        None,
    );
    assert_eq!(by_country.len(), 2);
    assert_eq!(by_country[0].id, "a");
    assert_eq!(by_country[1].id, "c");

    let by_degree = MatchingEngine::filter_scholarships(
        catalog.clone(),
        None,
        Some(DegreeLevel::Bachelor),
        None,
    );
    assert_eq!(by_degree.len(), 1);
    assert_eq!(by_degree[0].id, "c");

    let by_field = MatchingEngine::filter_scholarships(
        catalog.clone(),
        None,
        None,
        Some("computer".to_string()),
    );
    assert_eq!(by_field.len(), 3);

    let combined = MatchingEngine::filter_scholarships(
        catalog.clone(),
        Some("Japan".to_string()),
        Some(DegreeLevel::Master),
        Some("science".to_string()),
    );
    assert_eq!(combined.len(), 1);
    assert_eq!(combined[0].id, "a");

    let none = MatchingEngine::filter_scholarships(catalog, None, None, None);
    assert_eq!(none.len(), 3);
}

#[test]
fn profile_responses_copy_the_stored_fields() {
    let store = registered_store();
    let user = store.get_user(&"user-1".to_string()).unwrap();
    let response = user.to_response();
    assert_eq!(response.name, "Ayu");
    assert_eq!(response.email, "ayu@example.com");
    assert_eq!(response.education.major, "Computer Science");
    assert_eq!(response.skills, vec!["English".to_string(), "Programming".to_string()]);
    assert_eq!(response.preferences.preferred_countries, vec!["Japan".to_string()]);
    let minimal = user.to_minimal();
    assert_eq!(minimal.name, "Ayu");
    assert_eq!(minimal.university, "State University");
}
