//! The records the platform keeps, what a call hands back, and its errors.
//! Addresses and identifiers are held as text: an address by its account
//! string, a course or certificate by its identifier.

use vstd::prelude::*;
use crate::table::Dup;

verus! {

/// The status of a course listing.
#[derive(Clone, Copy, Debug, PartialEq, Eq, Structural)]
pub enum CourseStatus {
    /// Submitted by the instructor, awaiting admin approval.
    Pending,
    /// Approved by an admin: visible and open for enrollment.
    Active,
    /// Paused by the instructor or an admin: closed for new enrollments.
    Paused,
    /// Permanently removed from the platform.
    Archived,
}

/// A course listing.
pub struct Course {
    pub id: String,
    pub instructor: String,
    /// Price per enrollment, in the token's smallest unit.
    pub price: i128,
    /// Share of the price, in percent, that goes to the platform treasury.
    pub platform_fee_percent: u32,
    pub token: String,
    pub total_enrollments: u32,
    /// Enrollments that are not completed.
    pub active_enrollments: u32,
    pub total_earned: i128,
    pub status: CourseStatus,
    pub created_at_ledger: u32,
    pub max_capacity: Option<u32>,
}

/// One student's enrollment in one course.
pub struct Enrollment {
    pub student: String,
    pub course_id: String,
    pub amount_paid: i128,
    pub enrolled_at_ledger: u32,
    pub completed: bool,
    pub certificate_issued: bool,
    pub certificate_id: Option<String>,
    pub evidence_hash: Option<String>,
}

/// A certificate of completion.
pub struct Certificate {
    pub id: String,
    pub student: String,
    pub course_id: String,
    pub course_title: String,
    pub enrollment_reference: String,
    pub instructor: String,
    pub issued_at_ledger: u32,
    pub revoked: bool,
    pub revoked_by: Option<String>,
    pub revoked_at_ledger: Option<u32>,
    pub revocation_reason: Option<String>,
    pub expires_at_ledger: Option<u32>,
}

/// A treasury change waiting for its effective ledger.
pub struct TreasuryUpdate {
    pub address: String,
    pub effective_ledger: u32,
}

/// Where a refund request stands.
#[derive(Clone, Copy, Debug, PartialEq, Eq, Structural)]
pub enum RefundStatus {
    Pending,
    Approved,
    Rejected,
}

/// A student's request to be refunded for an enrollment.
pub struct RefundRequest {
    pub student: String,
    pub course_id: String,
    pub amount: i128,
    pub requested_at_ledger: u32,
    pub status: RefundStatus,
}

/// What the call knows of the ledger it runs in.
pub struct CallContext {
    /// The ledger's sequence number.
    pub sequence: u32,
    /// The platform's own account, which holds instructor earnings.
    pub contract: String,
}

/// A token movement that a call asks for.
pub struct Transfer {
    pub token: String,
    pub from: String,
    pub to: String,
    pub amount: i128,
}

/// A notice that a call publishes. Each carries the ledger of the call.
pub enum Event {
    PlatformInitialized {
        admin: String,
        secondary_admin: String,
        treasury: String,
        default_fee: u32,
        ledger: u32,
    },
    PlatformPaused { admin: String, ledger: u32 },
    PlatformUnpaused { admin: String, ledger: u32 },
    CourseRegistered {
        instructor: String,
        course_id: String,
        price: i128,
        token: String,
        fee_percent: u32,
        ledger: u32,
    },
    CourseApproved { admin: String, course_id: String, ledger: u32 },
    CoursePaused { caller: String, course_id: String, ledger: u32 },
    CourseUnpaused { caller: String, course_id: String, ledger: u32 },
    CourseArchived {
        admin1: String,
        admin2: String,
        course_id: String,
        refund_count: u32,
        total_refunded: i128,
        ledger: u32,
    },
    StudentEnrolled {
        student: String,
        course_id: String,
        amount_paid: i128,
        platform_fee: i128,
        instructor_fee: i128,
        ledger: u32,
    },
    EarningsWithdrawn { instructor: String, token: String, amount: i128 },
    CourseCompleted {
        admin: String,
        student: String,
        course_id: String,
        has_evidence: bool,
        ledger: u32,
    },
    CertificateIssued {
        admin: String,
        certificate_id: String,
        student: String,
        course_id: String,
        course_title: String,
        ledger: u32,
    },
    CertificateRevoked {
        admin: String,
        certificate_id: String,
        student: String,
        course_id: String,
        reason: String,
        ledger: u32,
    },
    AdminTransferProposed {
        admin1: String,
        admin2: String,
        new_admin: String,
        new_secondary_admin: String,
        ledger: u32,
    },
    AdminTransferred { previous_admin: String, new_admin: String, ledger: u32 },
    TreasuryUpdated {
        admin1: String,
        admin2: String,
        new_treasury: String,
        effective_ledger: u32,
        ledger: u32,
    },
    DefaultFeeUpdated { admin: String, fee_percent: u32, ledger: u32 },
    TokenWhitelisted { admin: String, token: String, ledger: u32 },
    TokenRemovedFromWhitelist { admin: String, token: String, ledger: u32 },
    TokensWithdrawn {
        admin: String,
        token: String,
        amount: i128,
        destination: String,
        ledger: u32,
    },
    InstructorFrozen { instructor: String },
    InstructorUnfrozen { instructor: String },
}

/// The result of a call that succeeded: its value, the accounts whose
/// authorization it needs, the token movements and the notices, in order.
pub struct Outcome<T> {
    pub value: T,
    pub auths: Vec<String>,
    pub transfers: Vec<Transfer>,
    pub events: Vec<Event>,
}

/// The single-admin operations, named in the error that refuses a caller.
#[derive(Clone, Copy, Debug, PartialEq, Eq, Structural)]
pub enum AdminOp {
    ApproveCourse,
    MarkCompleted,
    IssueCertificate,
    RevokeCertificate,
    PausePlatform,
    UnpausePlatform,
    WithdrawTokens,
    UpdateDefaultFee,
    AddApprovedToken,
    RemoveApprovedToken,
    UpdateMaxCoursesLimit,
    FreezeInstructor,
    UnfreezeInstructor,
    UpdateMinReviewDelay,
    UpdateRefundWindow,
    ProcessRefund,
}

/// The name of each single-admin operation.
pub open spec fn op_name(op: AdminOp) -> Seq<char> {
    match op {
        AdminOp::ApproveCourse => "approve_course"@,
        AdminOp::MarkCompleted => "mark_completed"@,
        AdminOp::IssueCertificate => "issue_certificate"@,
        AdminOp::RevokeCertificate => "revoke_certificate"@,
        AdminOp::PausePlatform => "pause_platform"@,
        AdminOp::UnpausePlatform => "unpause_platform"@,
        AdminOp::WithdrawTokens => "withdraw_tokens"@,
        AdminOp::UpdateDefaultFee => "update_default_fee"@,
        AdminOp::AddApprovedToken => "add_approved_token"@,
        AdminOp::RemoveApprovedToken => "remove_approved_token"@,
        AdminOp::UpdateMaxCoursesLimit => "update_max_courses_limit"@,
        AdminOp::FreezeInstructor => "freeze_instructor"@,
        AdminOp::UnfreezeInstructor => "unfreeze_instructor"@,
        AdminOp::UpdateMinReviewDelay => "update_min_review_delay"@,
        AdminOp::UpdateRefundWindow => "update_refund_window"@,
        AdminOp::ProcessRefund => "process_refund"@,
    }
}

impl AdminOp {
    /// The operation's name.
    pub fn name(&self) -> (r: &'static str)
        ensures
            r@ == op_name(*self),
    {
        match self {
            AdminOp::ApproveCourse => "approve_course",
            AdminOp::MarkCompleted => "mark_completed",
            AdminOp::IssueCertificate => "issue_certificate",
            AdminOp::RevokeCertificate => "revoke_certificate",
            AdminOp::PausePlatform => "pause_platform",
            AdminOp::UnpausePlatform => "unpause_platform",
            AdminOp::WithdrawTokens => "withdraw_tokens",
            AdminOp::UpdateDefaultFee => "update_default_fee",
            AdminOp::AddApprovedToken => "add_approved_token",
            AdminOp::RemoveApprovedToken => "remove_approved_token",
            AdminOp::UpdateMaxCoursesLimit => "update_max_courses_limit",
            AdminOp::FreezeInstructor => "freeze_instructor",
            AdminOp::UnfreezeInstructor => "unfreeze_instructor",
            AdminOp::UpdateMinReviewDelay => "update_min_review_delay",
            AdminOp::UpdateRefundWindow => "update_refund_window",
            AdminOp::ProcessRefund => "process_refund",
        }
    }
}

/// Why a call is refused. A refused call changes nothing.
#[derive(Clone, Copy, Debug, PartialEq, Eq, Structural)]
pub enum Error {
    AlreadyInitialized,
    NotInitialized,
    FeeTooHigh,
    FeeBelowMinimum,
    TreasuryIsContract,
    AdminIsTreasury,
    SecondaryAdminIsTreasury,
    AdminsNotDistinct,
    InstructorFrozen,
    CourseIdTooLong,
    NegativePrice,
    CourseAlreadyRegistered,
    CourseLimitReached,
    TokenNotApproved,
    NotAdmin(AdminOp),
    NotBothAdmins,
    Unauthorized,
    CourseNotFound,
    CourseNotPending,
    ReviewPeriodNotElapsed,
    CourseNotActive,
    CourseNotPaused,
    MustBePausedToArchive,
    TreasuryNotSet,
    FeeOverflow,
    InsufficientEarningsForRefund,
    ActiveEnrollmentsRemain,
    EmptyBatch,
    DuplicateInBatch,
    PlatformPaused,
    SelfEnrollment,
    CourseNotAvailable,
    AlreadyEnrolled,
    CapacityReached,
    EnrollmentCountOverflow,
    ActiveCountOverflow,
    TotalEarnedOverflow,
    EarningsOverflow,
    NegativeWithdrawal,
    InsufficientEarnings,
    EnrollmentNotFound,
    AlreadyCompleted,
    CertificateIdTooLong,
    CourseTitleTooLong,
    NotCompleted,
    CertificateAlreadyIssued,
    CertificateIdExists,
    CertificateNotFound,
    AlreadyRevoked,
    SameAdmins,
    NoPendingAdmin,
    NoPendingSecondaryAdmin,
    NotPendingAdmins,
    AdminNotSet,
    TreasuryIsAdmin,
    TreasuryIsSecondaryAdmin,
    LedgerOverflow,
    RefundWindowExpired,
    RefundAlreadyRequested,
    RefundRequestNotFound,
    RefundNotPending,
    RefundTotalOverflow,
    InvalidState,
}

/// The message each refusal answers with.
pub open spec fn error_message(e: Error) -> Seq<char> {
    match e {
        Error::AlreadyInitialized => "contract already initialized"@,
        Error::NotInitialized => "contract not initialized"@,
        Error::FeeTooHigh => "fee percentage cannot exceed 100"@,
        Error::FeeBelowMinimum => "fee percentage cannot be below platform minimum"@,
        Error::TreasuryIsContract => "treasury cannot be the contract address"@,
        Error::AdminIsTreasury => "admin and treasury must be distinct addresses"@,
        Error::SecondaryAdminIsTreasury => "secondary_admin and treasury must be distinct addresses"@,
        Error::AdminsNotDistinct => "admin and secondary_admin must be distinct addresses"@,
        Error::InstructorFrozen => "instructor is frozen"@,
        Error::CourseIdTooLong => "course_id exceeds maximum length"@,
        Error::NegativePrice => "price cannot be negative"@,
        Error::CourseAlreadyRegistered => "course already registered"@,
        Error::CourseLimitReached => "instructor has reached the maximum number of course registrations"@,
        Error::TokenNotApproved => "course token is not approved"@,
        Error::NotAdmin(_) => "unauthorized: "@,
        Error::NotBothAdmins => "unauthorized: requires both admin signatures"@,
        Error::Unauthorized => "unauthorized"@,
        Error::CourseNotFound => "course not found"@,
        Error::CourseNotPending => "course is not pending approval"@,
        Error::ReviewPeriodNotElapsed => "course review period has not elapsed"@,
        Error::CourseNotActive => "course is not active"@,
        Error::CourseNotPaused => "course is not paused"@,
        Error::MustBePausedToArchive => "course must be paused before archiving"@,
        Error::TreasuryNotSet => "treasury not set"@,
        Error::FeeOverflow => "overflow computing platform fee"@,
        Error::InsufficientEarningsForRefund => "insufficient instructor earnings for refund"@,
        Error::ActiveEnrollmentsRemain => "cannot archive course with active enrollments"@,
        Error::EmptyBatch => "course list cannot be empty"@,
        Error::DuplicateInBatch => "duplicate course in batch"@,
        Error::PlatformPaused => "platform is paused"@,
        Error::SelfEnrollment => "instructor cannot enroll in own course"@,
        Error::CourseNotAvailable => "course is not available for enrollment"@,
        Error::AlreadyEnrolled => "already enrolled in this course"@,
        Error::CapacityReached => "course has reached maximum enrollment capacity"@,
        Error::EnrollmentCountOverflow => "enrollment count overflow"@,
        Error::ActiveCountOverflow => "active enrollment count overflow"@,
        Error::TotalEarnedOverflow => "total earned overflow"@,
        Error::EarningsOverflow => "overflow computing instructor earnings"@,
        Error::NegativeWithdrawal => "withdrawal amount cannot be negative"@,
        Error::InsufficientEarnings => "insufficient earnings balance"@,
        Error::EnrollmentNotFound => "enrollment not found"@,
        Error::AlreadyCompleted => "already marked as completed"@,
        Error::CertificateIdTooLong => "certificate_id exceeds maximum length"@,
        Error::CourseTitleTooLong => "course_title exceeds maximum length"@,
        Error::NotCompleted => "student has not completed this course"@,
        Error::CertificateAlreadyIssued => "certificate already issued for this enrollment"@,
        Error::CertificateIdExists => "certificate ID already exists"@,
        Error::CertificateNotFound => "certificate not found"@,
        Error::AlreadyRevoked => "certificate is already revoked"@,
        Error::SameAdmins => "proposed admin addresses are identical to current admin addresses"@,
        Error::NoPendingAdmin => "no pending admin"@,
        Error::NoPendingSecondaryAdmin => "no pending secondary admin"@,
        Error::NotPendingAdmins => "callers are not the pending admins"@,
        Error::AdminNotSet => "admin not set"@,
        Error::TreasuryIsAdmin => "treasury cannot be the admin address"@,
        Error::TreasuryIsSecondaryAdmin => "treasury cannot be the secondary_admin address"@,
        Error::LedgerOverflow => "ledger sequence overflow"@,
        Error::RefundWindowExpired => "refund window has expired"@,
        Error::RefundAlreadyRequested => "refund already requested"@,
        Error::RefundRequestNotFound => "refund request not found"@,
        Error::RefundNotPending => "refund request is not pending"@,
        Error::RefundTotalOverflow => "overflow computing total refunded"@,
        Error::InvalidState => "saved state is invalid"@,
    }
}

impl Error {
    /// The message the platform answers with. For `NotAdmin` it is the
    /// prefix before the operation's name.
    pub fn message(&self) -> (r: &'static str)
        ensures
            r@ == error_message(*self),
    {
        match self {
            Error::AlreadyInitialized => "contract already initialized",
            Error::NotInitialized => "contract not initialized",
            Error::FeeTooHigh => "fee percentage cannot exceed 100",
            Error::FeeBelowMinimum => "fee percentage cannot be below platform minimum",
            Error::TreasuryIsContract => "treasury cannot be the contract address",
            Error::AdminIsTreasury => "admin and treasury must be distinct addresses",
            Error::SecondaryAdminIsTreasury => "secondary_admin and treasury must be distinct addresses",
            Error::AdminsNotDistinct => "admin and secondary_admin must be distinct addresses",
            Error::InstructorFrozen => "instructor is frozen",
            Error::CourseIdTooLong => "course_id exceeds maximum length",
            Error::NegativePrice => "price cannot be negative",
            Error::CourseAlreadyRegistered => "course already registered",
            Error::CourseLimitReached => "instructor has reached the maximum number of course registrations",
            Error::TokenNotApproved => "course token is not approved",
            Error::NotAdmin(_) => "unauthorized: ",
            Error::NotBothAdmins => "unauthorized: requires both admin signatures",
            Error::Unauthorized => "unauthorized",
            Error::CourseNotFound => "course not found",
            Error::CourseNotPending => "course is not pending approval",
            Error::ReviewPeriodNotElapsed => "course review period has not elapsed",
            Error::CourseNotActive => "course is not active",
            Error::CourseNotPaused => "course is not paused",
            Error::MustBePausedToArchive => "course must be paused before archiving",
            Error::TreasuryNotSet => "treasury not set",
            Error::FeeOverflow => "overflow computing platform fee",
            Error::InsufficientEarningsForRefund => "insufficient instructor earnings for refund",
            Error::ActiveEnrollmentsRemain => "cannot archive course with active enrollments",
            Error::EmptyBatch => "course list cannot be empty",
            Error::DuplicateInBatch => "duplicate course in batch",
            Error::PlatformPaused => "platform is paused",
            Error::SelfEnrollment => "instructor cannot enroll in own course",
            Error::CourseNotAvailable => "course is not available for enrollment",
            Error::AlreadyEnrolled => "already enrolled in this course",
            Error::CapacityReached => "course has reached maximum enrollment capacity",
            Error::EnrollmentCountOverflow => "enrollment count overflow",
            Error::ActiveCountOverflow => "active enrollment count overflow",
            Error::TotalEarnedOverflow => "total earned overflow",
            Error::EarningsOverflow => "overflow computing instructor earnings",
            Error::NegativeWithdrawal => "withdrawal amount cannot be negative",
            Error::InsufficientEarnings => "insufficient earnings balance",
            Error::EnrollmentNotFound => "enrollment not found",
            Error::AlreadyCompleted => "already marked as completed",
            Error::CertificateIdTooLong => "certificate_id exceeds maximum length",
            Error::CourseTitleTooLong => "course_title exceeds maximum length",
            Error::NotCompleted => "student has not completed this course",
            Error::CertificateAlreadyIssued => "certificate already issued for this enrollment",
            Error::CertificateIdExists => "certificate ID already exists",
            Error::CertificateNotFound => "certificate not found",
            Error::AlreadyRevoked => "certificate is already revoked",
            Error::SameAdmins => "proposed admin addresses are identical to current admin addresses",
            Error::NoPendingAdmin => "no pending admin",
            Error::NoPendingSecondaryAdmin => "no pending secondary admin",
            Error::NotPendingAdmins => "callers are not the pending admins",
            Error::AdminNotSet => "admin not set",
            Error::TreasuryIsAdmin => "treasury cannot be the admin address",
            Error::TreasuryIsSecondaryAdmin => "treasury cannot be the secondary_admin address",
            Error::LedgerOverflow => "ledger sequence overflow",
            Error::RefundWindowExpired => "refund window has expired",
            Error::RefundAlreadyRequested => "refund already requested",
            Error::RefundRequestNotFound => "refund request not found",
            Error::RefundNotPending => "refund request is not pending",
            Error::RefundTotalOverflow => "overflow computing total refunded",
            Error::InvalidState => "saved state is invalid",
        }
    }
}

impl Dup for Course {
    fn dup(&self) -> (r: Self) {
        Course {
            id: self.id.clone(),
            instructor: self.instructor.clone(),
            price: self.price,
            platform_fee_percent: self.platform_fee_percent,
            token: self.token.clone(),
            total_enrollments: self.total_enrollments,
            active_enrollments: self.active_enrollments,
            total_earned: self.total_earned,
            status: self.status,
            created_at_ledger: self.created_at_ledger,
            max_capacity: self.max_capacity,
        }
    }
}

impl Dup for Enrollment {
    fn dup(&self) -> (r: Self) {
        Enrollment {
            student: self.student.clone(),
            course_id: self.course_id.clone(),
            amount_paid: self.amount_paid,
            enrolled_at_ledger: self.enrolled_at_ledger,
            completed: self.completed,
            certificate_issued: self.certificate_issued,
            certificate_id: self.certificate_id.dup(),
            evidence_hash: self.evidence_hash.dup(),
        }
    }
}

impl Dup for Certificate {
    fn dup(&self) -> (r: Self) {
        Certificate {
            id: self.id.clone(),
            student: self.student.clone(),
            course_id: self.course_id.clone(),
            course_title: self.course_title.clone(),
            enrollment_reference: self.enrollment_reference.clone(),
            instructor: self.instructor.clone(),
            issued_at_ledger: self.issued_at_ledger,
            revoked: self.revoked,
            revoked_by: self.revoked_by.dup(),
            revoked_at_ledger: self.revoked_at_ledger,
            revocation_reason: self.revocation_reason.dup(),
            expires_at_ledger: self.expires_at_ledger,
        }
    }
}

impl Dup for TreasuryUpdate {
    fn dup(&self) -> (r: Self) {
        TreasuryUpdate { address: self.address.clone(), effective_ledger: self.effective_ledger }
    }
}

impl Dup for RefundRequest {
    fn dup(&self) -> (r: Self) {
        RefundRequest {
            student: self.student.clone(),
            course_id: self.course_id.clone(),
            amount: self.amount,
            requested_at_ledger: self.requested_at_ledger,
            status: self.status,
        }
    }
}

impl Dup for Transfer {
    fn dup(&self) -> (r: Self) {
        Transfer {
            token: self.token.clone(),
            from: self.from.clone(),
            to: self.to.clone(),
            amount: self.amount,
        }
    }
}

} // verus!
