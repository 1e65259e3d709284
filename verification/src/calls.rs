//! Every operation that can change the platform, as a value, and the state
//! that a run of such calls leaves, for laws that speak of later calls.

use vstd::prelude::*;
use crate::model::{self, Model, Step};
use crate::types::{CallContext, Error};

verus! {

/// A call of one of the platform's operations, with its arguments.
pub enum Call {
    Init {
        ctx: CallContext,
        admin: String,
        secondary_admin: String,
        treasury: String,
        default_fee_pct: u32,
        max_courses: u32,
    },
    PausePlatform { ctx: CallContext, admin: String },
    UnpausePlatform { ctx: CallContext, admin: String },
    UpdateDefaultFee { ctx: CallContext, admin: String, fee: u32 },
    AddApprovedToken { ctx: CallContext, admin: String, token: String },
    RemoveApprovedToken { ctx: CallContext, admin: String, token: String },
    UpdateMaxCoursesLimit { admin: String, max: u32 },
    UpdateMinReviewDelay { admin: String, delay: u32 },
    UpdateRefundWindow { admin: String, window: u32 },
    FreezeInstructor { admin: String, instructor: String },
    UnfreezeInstructor { admin: String, instructor: String },
    WithdrawTokens {
        ctx: CallContext,
        admin: String,
        token: String,
        amount: i128,
        destination: String,
    },
    TransferAdmin {
        ctx: CallContext,
        admin1: String,
        admin2: String,
        new_admin: String,
        new_secondary_admin: String,
    },
    AcceptAdmin { ctx: CallContext, new_admin: String, new_secondary_admin: String },
    UpdateTreasury { ctx: CallContext, admin1: String, admin2: String, new_treasury: String },
    RegisterCourse {
        ctx: CallContext,
        instructor: String,
        course_id: String,
        price: i128,
        token: String,
        fee: u32,
        max_capacity: Option<u32>,
    },
    ApproveCourse { ctx: CallContext, admin: String, course_id: String },
    PauseCourse { ctx: CallContext, caller: String, course_id: String },
    UnpauseCourse { ctx: CallContext, caller: String, course_id: String },
    ArchiveCourse {
        ctx: CallContext,
        admin1: String,
        admin2: String,
        course_id: String,
        students: Option<Seq<String>>,
    },
    Enroll { ctx: CallContext, student: String, course_id: String },
    BatchEnroll { ctx: CallContext, student: String, course_ids: Seq<String> },
    WithdrawEarnings { ctx: CallContext, instructor: String, token: String, amount: i128 },
    RequestRefund { ctx: CallContext, student: String, course_id: String },
    ProcessRefund {
        ctx: CallContext,
        admin: String,
        student: String,
        course_id: String,
        approve: bool,
    },
    MarkCompleted {
        ctx: CallContext,
        admin: String,
        student: String,
        course_id: String,
        evidence_hash: Option<String>,
    },
    IssueCertificate {
        ctx: CallContext,
        admin: String,
        certificate_id: String,
        student: String,
        course_id: String,
        course_title: String,
        enrollment_reference: String,
        expires_at_ledger: Option<u32>,
    },
    RevokeCertificate { ctx: CallContext, admin: String, certificate_id: String, reason: String },
}

/// The state a call leaves: the new state on success, the old one on a refusal.
pub open spec fn state_after<T>(m: Model, r: Result<Step<T>, Error>) -> Model {
    match r {
        Ok(s) => s.state,
        Err(_) => m,
    }
}

/// The state that one call leaves.
pub open spec fn step(m: Model, call: Call) -> Model {
    match call {
        Call::Init { ctx, admin, secondary_admin, treasury, default_fee_pct, max_courses } => state_after(
            m,
            model::init(m, ctx, admin, secondary_admin, treasury, default_fee_pct, max_courses),
        ),
        Call::PausePlatform { ctx, admin } => state_after(m, model::pause_platform(m, ctx, admin)),
        Call::UnpausePlatform { ctx, admin } => state_after(m, model::unpause_platform(m, ctx, admin)),
        Call::UpdateDefaultFee { ctx, admin, fee } => state_after(
            m,
            model::update_default_fee(m, ctx, admin, fee),
        ),
        Call::AddApprovedToken { ctx, admin, token } => state_after(
            m,
            model::add_approved_token(m, ctx, admin, token),
        ),
        Call::RemoveApprovedToken { ctx, admin, token } => state_after(
            m,
            model::remove_approved_token(m, ctx, admin, token),
        ),
        Call::UpdateMaxCoursesLimit { admin, max } => state_after(
            m,
            model::update_max_courses_limit(m, admin, max),
        ),
        Call::UpdateMinReviewDelay { admin, delay } => state_after(
            m,
            model::update_min_review_delay(m, admin, delay),
        ),
        Call::UpdateRefundWindow { admin, window } => state_after(
            m,
            model::update_refund_window(m, admin, window),
        ),
        Call::FreezeInstructor { admin, instructor } => state_after(
            m,
            model::freeze_instructor(m, admin, instructor),
        ),
        Call::UnfreezeInstructor { admin, instructor } => state_after(
            m,
            model::unfreeze_instructor(m, admin, instructor),
        ),
        Call::WithdrawTokens { ctx, admin, token, amount, destination } => state_after(
            m,
            model::withdraw_tokens(m, ctx, admin, token, amount, destination),
        ),
        Call::TransferAdmin { ctx, admin1, admin2, new_admin, new_secondary_admin } => state_after(
            m,
            model::transfer_admin(m, ctx, admin1, admin2, new_admin, new_secondary_admin),
        ),
        Call::AcceptAdmin { ctx, new_admin, new_secondary_admin } => state_after(
            m,
            model::accept_admin(m, ctx, new_admin, new_secondary_admin),
        ),
        Call::UpdateTreasury { ctx, admin1, admin2, new_treasury } => state_after(
            m,
            model::update_treasury(m, ctx, admin1, admin2, new_treasury),
        ),
        Call::RegisterCourse { ctx, instructor, course_id, price, token, fee, max_capacity } =>
            state_after(
            m,
            model::register_course(m, ctx, instructor, course_id, price, token, fee, max_capacity),
        ),
        Call::ApproveCourse { ctx, admin, course_id } => state_after(
            m,
            model::approve_course(m, ctx, admin, course_id),
        ),
        Call::PauseCourse { ctx, caller, course_id } => state_after(
            m,
            model::pause_course(m, ctx, caller, course_id),
        ),
        Call::UnpauseCourse { ctx, caller, course_id } => state_after(
            m,
            model::unpause_course(m, ctx, caller, course_id),
        ),
        Call::ArchiveCourse { ctx, admin1, admin2, course_id, students } => state_after(
            m,
            model::archive_course(m, ctx, admin1, admin2, course_id, students),
        ),
        Call::Enroll { ctx, student, course_id } => state_after(
            m,
            model::enroll(m, ctx, student, course_id),
        ),
        Call::BatchEnroll { ctx, student, course_ids } => state_after(
            m,
            model::batch_enroll(m, ctx, student, course_ids),
        ),
        Call::WithdrawEarnings { ctx, instructor, token, amount } => state_after(
            m,
            model::withdraw_earnings(m, ctx, instructor, token, amount),
        ),
        Call::RequestRefund { ctx, student, course_id } => state_after(
            m,
            model::request_refund(m, ctx, student, course_id),
        ),
        Call::ProcessRefund { ctx, admin, student, course_id, approve } => state_after(
            m,
            model::process_refund(m, ctx, admin, student, course_id, approve),
        ),
        Call::MarkCompleted { ctx, admin, student, course_id, evidence_hash } => state_after(
            m,
            model::mark_completed(m, ctx, admin, student, course_id, evidence_hash),
        ),
        Call::IssueCertificate {
            ctx,
            admin,
            certificate_id,
            student,
            course_id,
            course_title,
            enrollment_reference,
            expires_at_ledger,
        } => state_after(
            m,
            model::issue_certificate(
                m,
                ctx,
                admin,
                certificate_id,
                student,
                course_id,
                course_title,
                enrollment_reference,
                expires_at_ledger,
            ),
        ),
        Call::RevokeCertificate { ctx, admin, certificate_id, reason } => state_after(
            m,
            model::revoke_certificate(m, ctx, admin, certificate_id, reason),
        ),
    }
}

/// The state that the calls leave, made one after the other.
pub open spec fn run(m: Model, calls: Seq<Call>) -> Model
    decreases calls.len(),
{
    if calls.len() == 0 {
        m
    } else {
        step(run(m, calls.drop_last()), calls.last())
    }
}

} // verus!
