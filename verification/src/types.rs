//! The data model: user profiles, scholarships, match results, applications,
//! and the spec-level views of those types.
//!
//! Grades and scores are plain integers: a grade point average is held in
//! hundredths of a grade point (`380` stands for 3.80), and every score is
//! held in ten-thousandths (`10000` stands for a full score of 1.0).

use vstd::prelude::*;

verus! {

/// The level of a degree a student holds or a scholarship admits.
#[derive(Clone, Copy, Debug, PartialEq, Eq, Structural)]
pub enum DegreeLevel {
    HighSchool,
    Bachelor,
    Master,
    PhD,
}

/// What kind of support a scholarship offers.
#[derive(Clone, Copy, Debug, PartialEq, Eq, Structural)]
pub enum ScholarshipType {
    FullScholarship,
    PartialScholarship,
    ResearchGrant,
    ExchangeProgram,
}

/// How much of the tuition a scholarship covers.
#[derive(Clone, Copy, Debug, PartialEq, Eq, Structural)]
pub enum Coverage {
    Full,
    /// Partial coverage, as a percentage of the tuition.
    Partial(u8),
    NoCoverage,
}

/// Where an application stands.
#[derive(Clone, Copy, Debug, PartialEq, Eq, Structural)]
pub enum Status {
    Bookmarked,
    InProgress,
    Submitted,
    Accepted,
    Rejected,
}

/// A student's education record.
#[derive(Clone, Debug, PartialEq, Eq)]
pub struct Education {
    pub degree_level: DegreeLevel,
    pub major: String,
    pub university: String,
    /// Grade point average in hundredths of a grade point (0 to 400).
    pub gpa: u32,
    pub graduation_year: u32,
    /// The student's home country, also read as the student's nationality.
    pub country: String,
}

/// What a student is looking for.
#[derive(Clone, Debug, PartialEq, Eq)]
pub struct Preferences {
    /// Empty means no country preference at all.
    pub preferred_countries: Vec<String>,
    pub preferred_fields: Vec<String>,
    pub scholarship_type: ScholarshipType,
    pub min_amount: Option<u32>,
}

/// A registered student profile, keyed by an opaque caller identity.
#[derive(Clone, Debug, PartialEq, Eq)]
pub struct UserProfile {
    /// The opaque, stable identity of the caller that registered the profile.
    pub id: String,
    pub name: String,
    pub email: String,
    pub education: Education,
    pub skills: Vec<String>,
    pub preferences: Preferences,
    pub created_at: u64,
    pub updated_at: u64,
}

/// A profile as handed back to callers: the stored fields without the identity.
#[derive(Clone, Debug, PartialEq, Eq)]
pub struct UserProfileResponse {
    pub name: String,
    pub email: String,
    pub education: Education,
    pub skills: Vec<String>,
    pub preferences: Preferences,
    pub created_at: u64,
    pub updated_at: u64,
}

/// A cut-down profile with only the fields a directory listing shows.
#[derive(Clone, Debug, PartialEq, Eq)]
pub struct MinimalUserProfile {
    pub name: String,
    pub email: String,
    pub major: String,
    pub university: String,
}

impl UserProfile {
    /// The profile as handed back to callers: the stored fields without the
    /// identity.
    pub fn to_response(&self) -> (r: UserProfileResponse)
        ensures
            r.name@ == self.name@,
            r.email@ == self.email@,
            r.education == self.education,
            r.skills@ == self.skills@,
            r.preferences.preferred_countries@ == self.preferences.preferred_countries@,
            r.preferences.preferred_fields@ == self.preferences.preferred_fields@,
            r.preferences.scholarship_type == self.preferences.scholarship_type,
            r.preferences.min_amount == self.preferences.min_amount,
            r.created_at == self.created_at,
            r.updated_at == self.updated_at,
    {
        UserProfileResponse {
            name: self.name.clone(),
            email: self.email.clone(),
            education: Education {
                degree_level: self.education.degree_level,
                major: self.education.major.clone(),
                university: self.education.university.clone(),
                gpa: self.education.gpa,
                graduation_year: self.education.graduation_year,
                country: self.education.country.clone(),
            },
            skills: clone_strings(&self.skills),
            preferences: Preferences {
                preferred_countries: clone_strings(&self.preferences.preferred_countries),
                preferred_fields: clone_strings(&self.preferences.preferred_fields),
                scholarship_type: self.preferences.scholarship_type,
                min_amount: self.preferences.min_amount,
            },
            created_at: self.created_at,
            updated_at: self.updated_at,
        }
    }

    /// The cut-down profile a directory listing shows.
    pub fn to_minimal(&self) -> (r: MinimalUserProfile)
        ensures
            r.name@ == self.name@,
            r.email@ == self.email@,
            r.major@ == self.education.major@,
            r.university@ == self.education.university@,
    {
        MinimalUserProfile {
            name: self.name.clone(),
            email: self.email.clone(),
            major: self.education.major.clone(),
            university: self.education.university.clone(),
        }
    }
}

/// A copy of a list of strings, string for string.
fn clone_strings(items: &Vec<String>) -> (r: Vec<String>)
    ensures
        r@ == items@,
{
    let mut r: Vec<String> = Vec::new();
    let mut i: usize = 0;
    while i < items.len()
        invariant
            i <= items@.len(),
            r@ == items@.take(i as int),
        decreases items@.len() - i,
    {
        r.push(items[i].clone());
        proof {
            assert(items@.take(i + 1) =~= items@.take(i as int).push(items@[i as int]));
        }
        i = i + 1;
    }
    proof {
        assert(items@.take(items@.len() as int) =~= items@);
    }
    r
}

/// Who may apply for a scholarship.
#[derive(Clone, Debug, PartialEq, Eq)]
pub struct Eligibility {
    /// Minimum grade point average, in hundredths of a grade point.
    pub min_gpa: u32,
    pub required_degree: Option<DegreeLevel>,
    /// Inclusive upper bound on the applicant's age, when set.
    pub age_limit: Option<u8>,
    /// Accepted nationalities; empty means all nationalities are accepted.
    pub nationalities: Vec<String>,
    pub required_skills: Vec<String>,
    /// Minimum years of work experience, when set.
    pub work_experience_years: Option<u8>,
}

/// What a scholarship pays for.
#[derive(Clone, Debug, PartialEq, Eq)]
pub struct Benefits {
    pub tuition_coverage: Coverage,
    /// Monthly amount in USD, when a living allowance is paid.
    pub living_allowance: Option<u32>,
    pub travel_allowance: bool,
    pub health_insurance: bool,
    pub duration_months: u32,
}

/// A scholarship record, keyed by its id.
#[derive(Clone, Debug, PartialEq, Eq)]
pub struct Scholarship {
    pub id: String,
    pub name: String,
    pub provider: String,
    pub country: String,
    pub scholarship_type: ScholarshipType,
    /// The degree levels this scholarship admits.
    pub degree_levels: Vec<DegreeLevel>,
    /// Eligible fields of study; empty means unrestricted.
    pub fields_of_study: Vec<String>,
    pub eligibility: Eligibility,
    pub benefits: Benefits,
    /// Application deadline as a Unix timestamp.
    pub deadline: u64,
    pub application_url: String,
    pub description: String,
    pub created_at: u64,
}

/// One matched or missing criterion, as structured data.
///
/// Which list a criterion stands in says whether it was met; rendering the
/// pair to a display string is left to the caller-facing layer.
#[derive(Clone, Debug, PartialEq, Eq)]
pub enum Criterion {
    /// The grade point average reaches the scholarship's minimum.
    GpaMet { gpa: u32, min_gpa: u32 },
    /// The grade point average falls short of the scholarship's minimum.
    GpaBelow { gpa: u32, min_gpa: u32 },
    DegreeEligible { level: DegreeLevel },
    DegreeNotEligible { level: DegreeLevel },
    /// The scholarship fields that match the user's major.
    FieldMatched { fields: Vec<String> },
    /// The scholarship restricts no field of study.
    FieldUnrestricted,
    FieldNotMatched { major: String },
    CountryPreferred { country: String },
    NationalityEligible,
    NationalityNotEligible,
    AgeWithinLimit { estimated_age: i64, age_limit: u8 },
    AgeOverLimit { estimated_age: i64, age_limit: u8 },
    WorkExperienceMet,
    WorkExperienceNotMet,
    /// The required skills the user has.
    SkillsMatched { skills: Vec<String> },
    /// The required skills the user lacks.
    SkillsMissing { skills: Vec<String> },
}

/// The spec-level value of a [`Criterion`].
pub enum CriterionView {
    GpaMet { gpa: u32, min_gpa: u32 },
    GpaBelow { gpa: u32, min_gpa: u32 },
    DegreeEligible { level: DegreeLevel },
    DegreeNotEligible { level: DegreeLevel },
    FieldMatched { fields: Seq<Seq<char>> },
    FieldUnrestricted,
    FieldNotMatched { major: Seq<char> },
    CountryPreferred { country: Seq<char> },
    NationalityEligible,
    NationalityNotEligible,
    AgeWithinLimit { estimated_age: int, age_limit: u8 },
    AgeOverLimit { estimated_age: int, age_limit: u8 },
    WorkExperienceMet,
    WorkExperienceNotMet,
    SkillsMatched { skills: Seq<Seq<char>> },
    SkillsMissing { skills: Seq<Seq<char>> },
}

impl View for Criterion {
    type V = CriterionView;

    open spec fn view(&self) -> CriterionView {
        match self {
            Criterion::GpaMet { gpa, min_gpa } => CriterionView::GpaMet {
                gpa: *gpa,
                min_gpa: *min_gpa,
            },
            Criterion::GpaBelow { gpa, min_gpa } => CriterionView::GpaBelow {
                gpa: *gpa,
                min_gpa: *min_gpa,
            },
            Criterion::DegreeEligible { level } => CriterionView::DegreeEligible {
                level: *level,
            },
            Criterion::DegreeNotEligible { level } => CriterionView::DegreeNotEligible {
                level: *level,
            },
            Criterion::FieldMatched { fields } => CriterionView::FieldMatched {
                fields: fields.deep_view(),
            },
            Criterion::FieldUnrestricted => CriterionView::FieldUnrestricted,
            Criterion::FieldNotMatched { major } => CriterionView::FieldNotMatched {
                major: major@,
            },
            Criterion::CountryPreferred { country } => CriterionView::CountryPreferred {
                country: country@,
            },
            Criterion::NationalityEligible => CriterionView::NationalityEligible,
            Criterion::NationalityNotEligible => CriterionView::NationalityNotEligible,
            Criterion::AgeWithinLimit { estimated_age, age_limit } => CriterionView::AgeWithinLimit {
                estimated_age: *estimated_age as int,
                age_limit: *age_limit,
            },
            Criterion::AgeOverLimit { estimated_age, age_limit } => CriterionView::AgeOverLimit {
                estimated_age: *estimated_age as int,
                age_limit: *age_limit,
            },
            Criterion::WorkExperienceMet => CriterionView::WorkExperienceMet,
            Criterion::WorkExperienceNotMet => CriterionView::WorkExperienceNotMet,
            Criterion::SkillsMatched { skills } => CriterionView::SkillsMatched {
                skills: skills.deep_view(),
            },
            Criterion::SkillsMissing { skills } => CriterionView::SkillsMissing {
                skills: skills.deep_view(),
            },
        }
    }
}

impl DeepView for Criterion {
    type V = CriterionView;

    open spec fn deep_view(&self) -> CriterionView {
        self.view()
    }
}

/// The outcome of scoring one user against one scholarship.
///
/// A derived value: it is recomputed on demand and is not a source of truth.
#[derive(Clone, Debug, PartialEq, Eq)]
pub struct MatchResult {
    pub scholarship_id: String,
    pub user_id: String,
    /// The compatibility score in ten-thousandths, between 0 and 10000.
    pub compatibility_score: u32,
    pub matched_criteria: Vec<Criterion>,
    pub missing_criteria: Vec<Criterion>,
    /// When the score was computed, as a Unix timestamp.
    pub matched_at: u64,
}

/// The spec-level value of a [`MatchResult`].
pub struct MatchResultView {
    pub scholarship_id: Seq<char>,
    pub user_id: Seq<char>,
    pub compatibility_score: u32,
    pub matched_criteria: Seq<CriterionView>,
    pub missing_criteria: Seq<CriterionView>,
    pub matched_at: u64,
}

impl View for MatchResult {
    type V = MatchResultView;

    open spec fn view(&self) -> MatchResultView {
        MatchResultView {
            scholarship_id: self.scholarship_id@,
            user_id: self.user_id@,
            compatibility_score: self.compatibility_score,
            matched_criteria: self.matched_criteria.deep_view(),
            missing_criteria: self.missing_criteria.deep_view(),
            matched_at: self.matched_at,
        }
    }
}

impl DeepView for MatchResult {
    type V = MatchResultView;

    open spec fn deep_view(&self) -> MatchResultView {
        self.view()
    }
}

/// A user's relationship to one scholarship: a bookmark or an application.
#[derive(Clone, Debug, PartialEq, Eq)]
pub struct ApplicationStatus {
    pub id: String,
    pub user_id: String,
    pub scholarship_id: String,
    pub status: Status,
    pub notes: String,
    pub created_at: u64,
    pub updated_at: u64,
}

/// The spec-level value of an [`ApplicationStatus`].
pub struct ApplicationStatusView {
    pub id: Seq<char>,
    pub user_id: Seq<char>,
    pub scholarship_id: Seq<char>,
    pub status: Status,
    pub notes: Seq<char>,
    pub created_at: u64,
    pub updated_at: u64,
}

impl View for ApplicationStatus {
    type V = ApplicationStatusView;

    open spec fn view(&self) -> ApplicationStatusView {
        ApplicationStatusView {
            id: self.id@,
            user_id: self.user_id@,
            scholarship_id: self.scholarship_id@,
            status: self.status,
            notes: self.notes@,
            created_at: self.created_at,
            updated_at: self.updated_at,
        }
    }
}

impl DeepView for ApplicationStatus {
    type V = ApplicationStatusView;

    open spec fn deep_view(&self) -> ApplicationStatusView {
        self.view()
    }
}

/// A typed response envelope for the caller-facing layer.
#[derive(Clone, Debug, PartialEq, Eq)]
pub enum ApiResponse<T> {
    Success { success: bool, message: String, data: Option<T> },
    Failure { success: bool, message: String },
}

/// Every failure an operation can report.
#[derive(Clone, Debug, PartialEq, Eq)]
pub enum ScholarshipError {
    /// No user, scholarship or application with the given key.
    NotFound,
    /// A registration for an identity that already has a profile.
    AlreadyExists,
    /// A malformed field in a request.
    InvalidInput(String),
    /// The caller may not act on this resource.
    Unauthorized,
    /// The backing store failed.
    StorageError,
}

} // verus!
