//! Properties of the platform that span calls or hold of every input,
//! proved over the model that every operation is proved to follow.

use vstd::prelude::*;
use crate::model::{
    accept_admin, admin_check, approve_course, archive_course, batch_enroll, certificate_valid,
    count_of, course_ok, current_treasury, done, earnings_of, enroll, enroll_all,
    enrollment_check, first_enrollment_error,
    freeze_instructor, has_completed, has_duplicate, init, is_admin, issue_certificate, list_courses,
    archive_refunds, fits_i128, model_inv, multi_admin_check, pause_platform, remove_approved_token, uncompleted, unpause_platform,
    pause_course, process_refund, register_course, revoke_certificate, transfer_admin,
    unfreeze_instructor, unpause_course, update_treasury, withdraw_earnings, Model, Step,
    withdraw_tokens, mark_completed, request_refund, TREASURY_DELAY,
};
use crate::calls::{run, step, Call};
use crate::types::{AdminOp, CallContext, Certificate, Course, Enrollment, RefundRequest, CourseStatus, Error, Event, RefundStatus, Transfer};

verus! {

/// An enrollment records the payment and splits it: the platform's share is
/// `price * fee / 100` rounded down, the instructor's share is the rest, the
/// two add up to the price, the student pays the price to the platform, the
/// platform's share goes on to the treasury and the instructor's share is
/// credited to the instructor's withdrawable earnings.
pub proof fn law_enrollment_splits_payment(
    m: Model,
    ctx: CallContext,
    student: String,
    course_id: String,
)
    requires
        model_inv(m),
        enroll(m, ctx, student, course_id) is Ok,
    ensures
        m.courses.contains_key(course_id@),
        ({
            let c = m.courses[course_id@];
            let s = enroll(m, ctx, student, course_id)->Ok_0;
            let p = (c.price * c.platform_fee_percent) / 100;
            let i = c.price - p;
            &&& 0 <= p <= c.price
            &&& 0 <= i <= c.price
            &&& s.events == seq![
                Event::StudentEnrolled {
                    student,
                    course_id,
                    amount_paid: c.price,
                    platform_fee: p as i128,
                    instructor_fee: i as i128,
                    ledger: ctx.sequence,
                },
            ]
            &&& c.price > 0 ==> s.transfers[0] == Transfer {
                token: c.token,
                from: student,
                to: ctx.contract,
                amount: c.price,
            }
            &&& c.price > 0 && p > 0 ==> s.transfers.len() == 2 && s.transfers[1].amount == p
                && s.transfers[1].from == ctx.contract
            &&& c.price == 0 ==> s.transfers.len() == 0
            &&& earnings_of(s.state, c.instructor, c.token) == earnings_of(m, c.instructor, c.token)
                + (if c.price > 0 {
                i
            } else {
                0
            })
            &&& s.state.enrollments[(student@, course_id@)].amount_paid == c.price
        }),
{
    let c = m.courses[course_id@];
    assert(course_ok(course_id@, c));
    crate::fees::lemma_fee_split_conserves(c.price, c.platform_fee_percent);
}

/// A student enrolled in a course cannot enroll in it again.
pub proof fn law_no_double_enrollment(
    m: Model,
    ctx: CallContext,
    ctx2: CallContext,
    student: String,
    course_id: String,
)
    requires
        enroll(m, ctx, student, course_id) is Ok,
    ensures
        enroll(enroll(m, ctx, student, course_id)->Ok_0.state, ctx2, student, course_id) == Err::<
            Step<()>,
            Error,
        >(Error::AlreadyEnrolled),
{
}

/// After a successful enrollment the student is enrolled and has not completed.
pub proof fn law_enrolled_after_enroll(m: Model, ctx: CallContext, student: String, course_id: String)
    requires
        enroll(m, ctx, student, course_id) is Ok,
    ensures
        enroll(m, ctx, student, course_id)->Ok_0.state.enrollments.contains_key(
            (student@, course_id@),
        ),
        !has_completed(enroll(m, ctx, student, course_id)->Ok_0.state, student, course_id),
{
}

/// While the platform is paused every enrollment is refused.
pub proof fn law_paused_platform_refuses_enrollment(
    m: Model,
    ctx: CallContext,
    student: String,
    course_id: String,
    ids: Seq<String>,
)
    requires
        m.paused,
    ensures
        enroll(m, ctx, student, course_id) == Err::<Step<()>, Error>(Error::PlatformPaused),
        ids.len() > 0 && !has_duplicate(ids) ==> batch_enroll(m, ctx, student, ids) == Err::<
            Step<()>,
            Error,
        >(Error::PlatformPaused),
{
    if ids.len() > 0 && !has_duplicate(ids) {
        lemma_first_error_when_paused(m, student, ids);
    }
}

proof fn lemma_first_error_when_paused(m: Model, student: String, ids: Seq<String>)
    requires
        m.paused,
        ids.len() > 0,
    ensures
        first_enrollment_error(m, student, ids) == Some(Error::PlatformPaused),
    decreases ids.len(),
{
    if ids.len() > 1 {
        lemma_first_error_when_paused(m, student, ids.drop_last());
    } else {
        assert(first_enrollment_error(m, student, ids.drop_last()) is None);
    }
}

/// A capped course never holds more enrollments than its capacity.
pub proof fn law_capacity_respected(
    m: Model,
    ctx: CallContext,
    student: String,
    course_id: String,
    cap: u32,
)
    requires
        enroll(m, ctx, student, course_id) is Ok,
        m.courses[course_id@].max_capacity == Some(cap),
    ensures
        enroll(m, ctx, student, course_id)->Ok_0.state.courses[course_id@].total_enrollments <= cap,
{
}

/// An instructor cannot enroll in their own course.
pub proof fn law_no_self_enrollment(m: Model, ctx: CallContext, student: String, course_id: String)
    requires
        !m.paused,
        m.courses.contains_key(course_id@),
        !m.frozen.contains(m.courses[course_id@].instructor@),
        m.courses[course_id@].instructor@ == student@,
    ensures
        enroll(m, ctx, student, course_id) == Err::<Step<()>, Error>(Error::SelfEnrollment),
{
}

/// A certificate just issued verifies until it expires.
pub proof fn law_issued_certificate_verifies(
    m: Model,
    ctx: CallContext,
    admin: String,
    certificate_id: String,
    student: String,
    course_id: String,
    course_title: String,
    enrollment_reference: String,
    expires_at_ledger: Option<u32>,
    sequence: u32,
)
    requires
        issue_certificate(
            m,
            ctx,
            admin,
            certificate_id,
            student,
            course_id,
            course_title,
            enrollment_reference,
            expires_at_ledger,
        ) is Ok,
    ensures
        ({
            let s = issue_certificate(
                m,
                ctx,
                admin,
                certificate_id,
                student,
                course_id,
                course_title,
                enrollment_reference,
                expires_at_ledger,
            )->Ok_0;
            &&& certificate_valid(s.state, sequence, certificate_id) <==> match expires_at_ledger {
                Some(e) => sequence < e,
                None => true,
            }
            &&& has_completed(m, student, course_id)
            &&& s.state.enrollments[(student@, course_id@)].certificate_issued
        }),
{
}

/// A certificate is issued only to a student who completed the course, and
/// only once per enrollment.
pub proof fn law_one_certificate_per_enrollment(
    m: Model,
    ctx: CallContext,
    ctx2: CallContext,
    admin: String,
    certificate_id: String,
    certificate_id2: String,
    student: String,
    course_id: String,
    course_title: String,
    enrollment_reference: String,
    expires_at_ledger: Option<u32>,
)
    requires
        issue_certificate(
            m,
            ctx,
            admin,
            certificate_id,
            student,
            course_id,
            course_title,
            enrollment_reference,
            expires_at_ledger,
        ) is Ok,
    ensures
        issue_certificate(
            issue_certificate(
                m,
                ctx,
                admin,
                certificate_id,
                student,
                course_id,
                course_title,
                enrollment_reference,
                expires_at_ledger,
            )->Ok_0.state,
            ctx2,
            admin,
            certificate_id2,
            student,
            course_id,
            course_title,
            enrollment_reference,
            expires_at_ledger,
        ) is Err,
{
}

/// A revoked certificate no longer verifies, at any ledger, keeps its record
/// with the revoking admin, the ledger and the reason, and cannot be revoked
/// again.
pub proof fn law_revoked_certificate_fails_verification(
    m: Model,
    ctx: CallContext,
    ctx2: CallContext,
    admin: String,
    certificate_id: String,
    reason: String,
    reason2: String,
    sequence: u32,
)
    requires
        revoke_certificate(m, ctx, admin, certificate_id, reason) is Ok,
    ensures
        ({
            let s = revoke_certificate(m, ctx, admin, certificate_id, reason)->Ok_0;
            let cert = s.state.certificates[certificate_id@];
            &&& !certificate_valid(s.state, sequence, certificate_id)
            &&& s.state.certificates.contains_key(certificate_id@)
            &&& cert.revoked
            &&& cert.revoked_by == Some(admin)
            &&& cert.revoked_at_ledger == Some(ctx.sequence)
            &&& cert.revocation_reason == Some(reason)
            &&& revoke_certificate(s.state, ctx2, admin, certificate_id, reason2) == Err::<
                Step<()>,
                Error,
            >(Error::AlreadyRevoked)
        }),
{
}

/// The two-step admin handover: after both admins propose a new pair and
/// the pair accepts, the new pair are the admins and a previous admin who
/// is not the new primary admin loses admin rights.
pub proof fn law_admin_handover(
    m: Model,
    ctx: CallContext,
    admin1: String,
    admin2: String,
    new_admin: String,
    new_secondary_admin: String,
    op: AdminOp,
)
    requires
        transfer_admin(m, ctx, admin1, admin2, new_admin, new_secondary_admin) is Ok,
    ensures
        ({
            let s1 = transfer_admin(m, ctx, admin1, admin2, new_admin, new_secondary_admin)->Ok_0;
            let r2 = accept_admin(s1.state, ctx, new_admin, new_secondary_admin);
            &&& r2 is Ok
            &&& r2->Ok_0.state.admin == Some(new_admin)
            &&& r2->Ok_0.state.secondary_admin == Some(new_secondary_admin)
            &&& r2->Ok_0.state.pending_admin is None
            &&& is_admin(r2->Ok_0.state, new_admin)
            &&& m.admin.unwrap()@ != new_admin@ ==> admin_check(r2->Ok_0.state, m.admin.unwrap(), op)
                == Some(Error::NotAdmin(op))
        }),
{
}

/// Only the proposed pair can accept an admin handover.
pub proof fn law_only_pending_admins_accept(
    m: Model,
    ctx: CallContext,
    new_admin: String,
    new_secondary_admin: String,
)
    requires
        !(m.pending_admin matches Some(p) && p@ == new_admin@),
    ensures
        accept_admin(m, ctx, new_admin, new_secondary_admin) is Err,
{
}

/// Initialization happens once.
pub proof fn law_init_once(
    m: Model,
    ctx: CallContext,
    ctx2: CallContext,
    admin: String,
    secondary_admin: String,
    treasury: String,
    fee: u32,
    max: u32,
    admin2: String,
    secondary_admin2: String,
    treasury2: String,
    fee2: u32,
    max2: u32,
)
    requires
        init(m, ctx, admin, secondary_admin, treasury, fee, max) is Ok,
    ensures
        init(
            init(m, ctx, admin, secondary_admin, treasury, fee, max)->Ok_0.state,
            ctx2,
            admin2,
            secondary_admin2,
            treasury2,
            fee2,
            max2,
        ) == Err::<Step<()>, Error>(Error::AlreadyInitialized),
{
}

/// Withdrawing 0 withdraws the whole balance: the instructor receives it
/// and is left with nothing; a second such withdrawal moves nothing.
pub proof fn law_withdraw_all(
    m: Model,
    ctx: CallContext,
    ctx2: CallContext,
    instructor: String,
    token: String,
)
    requires
        model_inv(m),
    ensures
        withdraw_earnings(m, ctx, instructor, token, 0) is Ok,
        ({
            let s = withdraw_earnings(m, ctx, instructor, token, 0)->Ok_0;
            let bal = earnings_of(m, instructor, token);
            &&& earnings_of(s.state, instructor, token) == 0
            &&& bal > 0 ==> s.transfers == seq![
                Transfer { token, from: ctx.contract, to: instructor, amount: bal },
            ]
            &&& bal == 0 ==> s.transfers.len() == 0
            &&& withdraw_earnings(s.state, ctx2, instructor, token, 0) == done(s.state, seq![instructor])
        }),
{
    if m.earnings.contains_key((instructor@, token@)) {
        assert(m.earnings[(instructor@, token@)] > 0);
    }
    let s = withdraw_earnings(m, ctx, instructor, token, 0)->Ok_0;
    assert(!s.state.earnings.contains_key((instructor@, token@)));
}

/// A withdrawal never exceeds the balance and lowers it by its amount.
pub proof fn law_withdraw_bounded(
    m: Model,
    ctx: CallContext,
    instructor: String,
    token: String,
    amount: i128,
)
    requires
        amount > 0,
        withdraw_earnings(m, ctx, instructor, token, amount) is Ok,
    ensures
        amount <= earnings_of(m, instructor, token),
        earnings_of(withdraw_earnings(m, ctx, instructor, token, amount)->Ok_0.state, instructor, token)
            == earnings_of(m, instructor, token) - amount,
{
}

/// A treasury change takes effect 100 ledgers after it is made: before then
/// fees still go to the old treasury, from then on to the new one.
pub proof fn law_treasury_change_is_delayed(
    m: Model,
    ctx: CallContext,
    ctx2: CallContext,
    admin1: String,
    admin2: String,
    new_treasury: String,
    old_treasury: String,
)
    requires
        m.treasury == Some(old_treasury),
        update_treasury(m, ctx, admin1, admin2, new_treasury) is Ok,
    ensures
        ({
            let s = update_treasury(m, ctx, admin1, admin2, new_treasury)->Ok_0;
            &&& ctx2.sequence < ctx.sequence + TREASURY_DELAY ==> current_treasury(s.state, ctx2)
                == Some((s.state, old_treasury))
            &&& ctx2.sequence >= ctx.sequence + TREASURY_DELAY ==> (current_treasury(s.state, ctx2)
                matches Some((_, t)) && t == new_treasury)
        }),
{
}

/// Freezing and unfreezing an instructor.
pub proof fn law_freeze_roundtrip(m: Model, admin: String, instructor: String)
    requires
        is_admin(m, admin),
    ensures
        freeze_instructor(m, admin, instructor)->Ok_0.state.frozen.contains(instructor@),
        !unfreeze_instructor(
            freeze_instructor(m, admin, instructor)->Ok_0.state,
            admin,
            instructor,
        )->Ok_0.state.frozen.contains(instructor@),
{
}

/// An archived course is final: it cannot be approved, paused, unpaused or
/// archived again, and a course identifier is never registered twice.
pub proof fn law_archived_is_final(
    m: Model,
    ctx: CallContext,
    caller: String,
    admin2: String,
    course_id: String,
    students: Option<Seq<String>>,
    instructor: String,
    price: i128,
    token: String,
    fee: u32,
    cap: Option<u32>,
)
    requires
        m.courses.contains_key(course_id@),
        m.courses[course_id@].status == CourseStatus::Archived,
    ensures
        approve_course(m, ctx, caller, course_id) is Err,
        pause_course(m, ctx, caller, course_id) is Err,
        unpause_course(m, ctx, caller, course_id) is Err,
        archive_course(m, ctx, caller, admin2, course_id, students) is Err,
        register_course(m, ctx, instructor, course_id, price, token, fee, cap) is Err,
{
}

/// Archiving needs a Paused course and leaves it Archived with an active
/// count of 0; by `law_archived_course_has_no_open_enrollment` no enrollment
/// in it is then left uncompleted.
pub proof fn law_archive_leaves_no_active_enrollment(
    m: Model,
    ctx: CallContext,
    admin1: String,
    admin2: String,
    course_id: String,
    students: Option<Seq<String>>,
)
    requires
        archive_course(m, ctx, admin1, admin2, course_id, students) is Ok,
    ensures
        ({
            let s = archive_course(m, ctx, admin1, admin2, course_id, students)->Ok_0;
            &&& s.state.courses[course_id@].status == CourseStatus::Archived
            &&& s.state.courses[course_id@].active_enrollments == 0
            &&& m.courses[course_id@].status == CourseStatus::Paused
        }),
{
}

/// A registered course starts Pending with a fee between the platform
/// default and 100 percent, and counts once against the instructor's limit.
pub proof fn law_registration(
    m: Model,
    ctx: CallContext,
    instructor: String,
    course_id: String,
    price: i128,
    token: String,
    fee: u32,
    cap: Option<u32>,
)
    requires
        register_course(m, ctx, instructor, course_id, price, token, fee, cap) is Ok,
    ensures
        ({
            let s = register_course(m, ctx, instructor, course_id, price, token, fee, cap)->Ok_0;
            let c = s.state.courses[course_id@];
            &&& !m.courses.contains_key(course_id@)
            &&& c.status == CourseStatus::Pending
            &&& m.default_fee <= c.platform_fee_percent <= 100 || (fee == 0
                && c.platform_fee_percent == m.default_fee)
            &&& count_of(s.state, instructor) == count_of(m, instructor) + 1
            &&& count_of(s.state, instructor) <= m.max_courses
            &&& s.state.catalog == m.catalog.push(course_id)
        }),
{
}

/// An approved refund pays the enrollment back in full and removes it.
pub proof fn law_approved_refund_pays_in_full(
    m: Model,
    ctx: CallContext,
    admin: String,
    student: String,
    course_id: String,
)
    requires
        model_inv(m),
        process_refund(m, ctx, admin, student, course_id, true) is Ok,
    ensures
        ({
            let s = process_refund(m, ctx, admin, student, course_id, true)->Ok_0;
            let paid = m.enrollments[(student@, course_id@)].amount_paid;
            &&& !s.state.enrollments.contains_key((student@, course_id@))
            &&& s.state.refunds[(student@, course_id@)].status == RefundStatus::Approved
            &&& forall|k: int| 0 <= k < s.transfers.len() ==> #[trigger] s.transfers[k].to == student
            &&& s.transfers.len() == 0 ==> paid == 0
            &&& s.transfers.len() == 1 ==> s.transfers[0].amount == paid
            &&& s.transfers.len() == 2 ==> s.transfers[0].amount + s.transfers[1].amount == paid
            &&& s.transfers.len() <= 2
        }),
{
    let c = m.courses[course_id@];
    let paid = m.enrollments[(student@, course_id@)].amount_paid;
    assert(course_ok(course_id@, c));
    crate::fees::lemma_fee_split_conserves(paid, c.platform_fee_percent);
}

/// A rejected refund leaves the enrollment in place.
pub proof fn law_rejected_refund_keeps_enrollment(
    m: Model,
    ctx: CallContext,
    admin: String,
    student: String,
    course_id: String,
)
    requires
        process_refund(m, ctx, admin, student, course_id, false) is Ok,
    ensures
        ({
            let s = process_refund(m, ctx, admin, student, course_id, false)->Ok_0;
            &&& s.state.enrollments == m.enrollments
            &&& s.state.refunds[(student@, course_id@)].status == RefundStatus::Rejected
            &&& s.transfers.len() == 0
        }),
{
}

/// A batch enrollment that succeeds enrolls the student in every listed course.
pub proof fn law_batch_enrolls_every_course(
    m: Model,
    ctx: CallContext,
    student: String,
    ids: Seq<String>,
)
    requires
        batch_enroll(m, ctx, student, ids) is Ok,
    ensures
        forall|j: int|
            0 <= j < ids.len() ==> #[trigger] batch_enroll(m, ctx, student, ids)->Ok_0.state.enrollments.contains_key(
                (student@, ids[j]@),
            ),
{
    lemma_enroll_all_enrolls(m, ctx, student, ids);
}

proof fn lemma_enroll_all_enrolls(m: Model, ctx: CallContext, student: String, ids: Seq<String>)
    requires
        enroll_all(m, ctx, student, ids) is Ok,
    ensures
        forall|j: int|
            0 <= j < ids.len() ==> #[trigger] enroll_all(m, ctx, student, ids)->Ok_0.0.enrollments.contains_key(
                (student@, ids[j]@),
            ),
    decreases ids.len(),
{
    if ids.len() > 0 {
        let prefix = ids.drop_last();
        lemma_enroll_all_enrolls(m, ctx, student, prefix);
        let m1 = enroll_all(m, ctx, student, prefix)->Ok_0.0;
        let m2 = enroll_all(m, ctx, student, ids)->Ok_0.0;
        assert forall|j: int| 0 <= j < ids.len() implies #[trigger] m2.enrollments.contains_key(
            (student@, ids[j]@),
        ) by {
            if j < ids.len() - 1 {
                assert(prefix[j] == ids[j]);
                assert(m1.enrollments.contains_key((student@, prefix[j]@)));
            }
        }
    }
}

/// Pausing a course and unpausing it again restores the platform exactly.
pub proof fn law_pause_roundtrip(
    m: Model,
    ctx: CallContext,
    ctx2: CallContext,
    caller: String,
    course_id: String,
)
    requires
        pause_course(m, ctx, caller, course_id) is Ok,
    ensures
        unpause_course(pause_course(m, ctx, caller, course_id)->Ok_0.state, ctx2, caller, course_id) is Ok,
        unpause_course(pause_course(m, ctx, caller, course_id)->Ok_0.state, ctx2, caller, course_id)->Ok_0.state
            == m,
{
    let m1 = pause_course(m, ctx, caller, course_id)->Ok_0.state;
    let m2 = unpause_course(m1, ctx2, caller, course_id)->Ok_0.state;
    assert(m2.courses =~= m.courses);
    assert(m2 =~= m);
}

/// A batch is all or nothing: when any listed course would refuse the
/// student, the whole batch is refused.
pub proof fn law_batch_is_all_or_nothing(
    m: Model,
    ctx: CallContext,
    student: String,
    ids: Seq<String>,
    j: int,
)
    requires
        0 <= j < ids.len(),
        enrollment_check(m, student, ids[j]) is Some,
    ensures
        batch_enroll(m, ctx, student, ids) is Err,
{
    lemma_first_error_found(m, student, ids, j);
}

proof fn lemma_first_error_found(m: Model, student: String, ids: Seq<String>, j: int)
    requires
        0 <= j < ids.len(),
        enrollment_check(m, student, ids[j]) is Some,
    ensures
        first_enrollment_error(m, student, ids) is Some,
    decreases ids.len(),
{
    if j < ids.len() - 1 {
        assert(ids.drop_last()[j] == ids[j]);
        lemma_first_error_found(m, student, ids.drop_last(), j);
    }
}

/// A page that starts at or past the end of the catalog is empty.
pub proof fn law_page_past_end_is_empty(m: Model, offset: u32, limit: u32)
    requires
        offset >= m.catalog.len(),
    ensures
        list_courses(m, offset, limit) == Seq::<String>::empty(),
{
    assert(m.catalog.subrange(m.catalog.len() as int, m.catalog.len() as int) =~= seq![]);
}

/// A page never holds more than `limit` identifiers.
pub proof fn law_page_within_limit(m: Model, offset: u32, limit: u32)
    ensures
        list_courses(m, offset, limit).len() <= limit,
{
}

/// Consecutive pages read the catalog without gap or overlap: a page of
/// `a` identifiers followed by the page of `b` from where it stopped is the
/// page of `a + b`.
pub proof fn law_pages_concatenate(m: Model, offset: u32, a: u32, b: u32)
    requires
        offset as int + a + b <= u32::MAX,
    ensures
        list_courses(m, offset, a) + list_courses(m, (offset + a) as u32, b) == list_courses(
            m,
            offset,
            (a + b) as u32,
        ),
{
    let n = m.catalog.len() as int;
    let s1 = vstd::math::min(offset as int, n);
    let e1 = vstd::math::min(s1 + a, n);
    let s2 = vstd::math::min(offset + a, n);
    let e2 = vstd::math::min(s2 + b, n);
    let e3 = vstd::math::min(s1 + a + b, n);
    assert(s2 == e1);
    assert(e2 == e3);
    assert(m.catalog.subrange(s1, e1) + m.catalog.subrange(e1, e2) =~= m.catalog.subrange(s1, e3));
}

/// The two-admin operations need two distinct signers: in every state that
/// obeys the invariant, one address passed as both admins is refused.
pub proof fn law_one_address_is_never_both_admins(m: Model, admin1: String, admin2: String)
    requires
        model_inv(m),
        admin1@ == admin2@,
    ensures
        multi_admin_check(m, admin1, admin2) is Some,
{
}

/// Each course's active count is the number of its enrollments that are
/// not completed, and never exceeds its total enrollments.
pub proof fn law_active_count(m: Model, course_id: Seq<char>)
    requires
        model_inv(m),
        m.courses.contains_key(course_id),
    ensures
        m.courses[course_id].active_enrollments == uncompleted(m.enrollments, course_id).len(),
        m.courses[course_id].active_enrollments <= m.courses[course_id].total_enrollments,
{
    assert(course_ok(course_id, m.courses[course_id]));
}

/// An archived course holds no enrollment that is not completed: archiving
/// refunds or leaves only completed enrollments, and none can be added after.
pub proof fn law_archived_course_has_no_open_enrollment(
    m: Model,
    student: Seq<char>,
    course_id: Seq<char>,
)
    requires
        model_inv(m),
        m.courses.contains_key(course_id),
        m.courses[course_id].status == CourseStatus::Archived,
        m.enrollments.contains_key((student, course_id)),
    ensures
        m.enrollments[(student, course_id)].completed,
{
    assert(course_ok(course_id, m.courses[course_id]));
    let open = uncompleted(m.enrollments, course_id);
    m.enrollments.dom().lemma_len_filter(
        |k: (Seq<char>, Seq<char>)| k.1 == course_id && !m.enrollments[k].completed,
    );
    if !m.enrollments[(student, course_id)].completed {
        assert(open.contains((student, course_id)));
        assert(open.remove((student, course_id)).len() == open.len() - 1);
    }
}

/// Removing a token from the list of approved tokens closes every course
/// priced in it: an enrollment that every other check would let through is
/// refused because the token is not approved, until the token is added back.
pub proof fn law_removed_token_refuses_enrollment(
    m: Model,
    ctx: CallContext,
    admin: String,
    token: String,
    student: String,
    course_id: String,
)
    requires
        remove_approved_token(m, ctx, admin, token) is Ok,
        m.courses.contains_key(course_id@),
        m.courses[course_id@].token@ == token@,
    ensures
        enroll(remove_approved_token(m, ctx, admin, token)->Ok_0.state, ctx, student, course_id) is Err,
        enrollment_check(m, student, course_id) is None ==> enroll(
            remove_approved_token(m, ctx, admin, token)->Ok_0.state,
            ctx,
            student,
            course_id,
        ) == Err::<Step<()>, Error>(Error::TokenNotApproved),
{
}

/// Pausing the platform and unpausing it again restores the platform
/// exactly; while it is paused every enrollment is refused
/// (`law_paused_platform_refuses_enrollment`).
pub proof fn law_platform_pause_roundtrip(m: Model, ctx: CallContext, ctx2: CallContext, admin: String)
    requires
        is_admin(m, admin),
        !m.paused,
    ensures
        pause_platform(m, ctx, admin) is Ok,
        pause_platform(m, ctx, admin)->Ok_0.state.paused,
        unpause_platform(pause_platform(m, ctx, admin)->Ok_0.state, ctx2, admin) is Ok,
        unpause_platform(pause_platform(m, ctx, admin)->Ok_0.state, ctx2, admin)->Ok_0.state == m,
{
    let m2 = unpause_platform(pause_platform(m, ctx, admin)->Ok_0.state, ctx2, admin)->Ok_0.state;
    assert(m2 =~= m);
}

/// The sum of the amounts moved.
pub open spec fn sum_amounts(ts: Seq<Transfer>) -> int
    decreases ts.len(),
{
    if ts.len() == 0 {
        0
    } else {
        sum_amounts(ts.drop_last()) + ts.last().amount
    }
}

proof fn lemma_sum_concat(a: Seq<Transfer>, b: Seq<Transfer>)
    ensures
        sum_amounts(a + b) == sum_amounts(a) + sum_amounts(b),
    decreases b.len(),
{
    if b.len() > 0 {
        assert((a + b).drop_last() =~= a + b.drop_last());
        lemma_sum_concat(a, b.drop_last());
    } else {
        assert(a + b =~= a);
    }
}

proof fn lemma_refund_totals(
    m: Model,
    ctx: CallContext,
    course_id: String,
    course: Course,
    treasury: String,
    students: Seq<String>,
)
    requires
        model_inv(m),
        m.courses.contains_key(course_id@),
        course == m.courses[course_id@],
        archive_refunds(m, ctx, course_id, course, treasury, students) is Ok,
    ensures
        ({
            let r = archive_refunds(m, ctx, course_id, course, treasury, students)->Ok_0;
            &&& sum_amounts(r.transfers) == r.total
            &&& 0 <= r.total && fits_i128(r.total)
            &&& r.count <= students.len()
            &&& r.count + r.course.active_enrollments == course.active_enrollments
            &&& r.course.active_enrollments == uncompleted(r.state.enrollments, course_id@).len()
            &&& r.state.enrollments.dom().finite()
            &&& r.course.platform_fee_percent == course.platform_fee_percent
            &&& forall|k: (Seq<char>, Seq<char>)| #[trigger] r.state.enrollments.contains_key(k)
                ==> m.enrollments.contains_key(k) && r.state.enrollments[k] == m.enrollments[k]
        }),
    decreases students.len(),
{
    if students.len() > 0 {
        let rest = students.drop_last();
        lemma_refund_totals(m, ctx, course_id, course, treasury, rest);
        let r = archive_refunds(m, ctx, course_id, course, treasury, rest)->Ok_0;
        let s = students.last();
        let key = (s@, course_id@);
        if r.state.enrollments.contains_key(key) && !r.state.enrollments[key].completed {
            let amount = r.state.enrollments[key].amount_paid;
            assert(m.enrollments.contains_key(key));
            crate::fees::lemma_fee_split_conserves(amount, r.course.platform_fee_percent);
            let ts2 = crate::model::refund_payment(r.state, ctx, r.course, treasury, s, amount)->Ok_0.1;
            let open = uncompleted(r.state.enrollments, course_id@);
            r.state.enrollments.dom().lemma_len_filter(
                |k: (Seq<char>, Seq<char>)| k.1 == course_id@ && !r.state.enrollments[k].completed,
            );
            assert(open.contains(key));
            assert(open.remove(key).len() == open.len() - 1);
            let m2 = crate::model::refund_payment(r.state, ctx, r.course, treasury, s, amount)->Ok_0.0;
            assert(m2.enrollments == r.state.enrollments);
            crate::model::lemma_uncompleted_remove(m2.enrollments, key);
            assert(sum_amounts(ts2) == amount) by {
                reveal_with_fuel(sum_amounts, 3);
                if ts2.len() == 2 {
                    assert(ts2.drop_last().drop_last() =~= Seq::<Transfer>::empty());
                } else if ts2.len() == 1 {
                    assert(ts2.drop_last() =~= Seq::<Transfer>::empty());
                }
            }
            lemma_sum_concat(r.transfers, ts2);
        }
    }
}

/// The archive notice tells the truth about the refunds: its total is the
/// sum of the amounts paid back and is not negative, and its count is the
/// number of active enrollments the course had, none of which is left, and
/// at most the number of students listed.
pub proof fn law_archive_notice_matches_refunds(
    m: Model,
    ctx: CallContext,
    admin1: String,
    admin2: String,
    course_id: String,
    students: Option<Seq<String>>,
)
    requires
        model_inv(m),
        archive_course(m, ctx, admin1, admin2, course_id, students) is Ok,
    ensures
        ({
            let s = archive_course(m, ctx, admin1, admin2, course_id, students)->Ok_0;
            &&& s.events.len() == 1
            &&& s.events[0] matches Event::CourseArchived { total_refunded, refund_count, .. }
                && total_refunded == sum_amounts(s.transfers) && total_refunded >= 0
                && refund_count == m.courses[course_id@].active_enrollments && (students matches Some(
                l,
            ) ==> refund_count <= l.len()) && (students is None ==> refund_count == 0)
        }),
{
    let c = m.courses[course_id@];
    assert(course_ok(course_id@, c));
    if let Some(l) = students {
        if let Some(t) = m.treasury {
            lemma_refund_totals(m, ctx, course_id, c, t, l);
        }
    }
}

proof fn lemma_enroll_all_keeps_tokens(m: Model, ctx: CallContext, student: String, ids: Seq<String>)
    requires
        enroll_all(m, ctx, student, ids) is Ok,
    ensures
        enroll_all(m, ctx, student, ids)->Ok_0.0.approved_tokens == m.approved_tokens,
    decreases ids.len(),
{
    if ids.len() > 0 {
        lemma_enroll_all_keeps_tokens(m, ctx, student, ids.drop_last());
    }
}

proof fn lemma_archive_refunds_keeps_tokens(
    m: Model,
    ctx: CallContext,
    course_id: String,
    course: Course,
    treasury: String,
    students: Seq<String>,
)
    requires
        archive_refunds(m, ctx, course_id, course, treasury, students) is Ok,
    ensures
        archive_refunds(m, ctx, course_id, course, treasury, students)->Ok_0.state.approved_tokens
            == m.approved_tokens,
    decreases students.len(),
{
    if students.len() > 0 {
        lemma_archive_refunds_keeps_tokens(m, ctx, course_id, course, treasury, students.drop_last());
    }
}

/// Only adding a token approves it.
proof fn lemma_step_keeps_token_unapproved(m: Model, call: Call, token: Seq<char>)
    requires
        !m.approved_tokens.contains(token),
        !(call matches Call::AddApprovedToken { token: t, .. } && t@ == token),
    ensures
        !step(m, call).approved_tokens.contains(token),
{
    match call {
        Call::BatchEnroll { ctx, student, course_ids } => {
            if enroll_all(m, ctx, student, course_ids) is Ok {
                lemma_enroll_all_keeps_tokens(m, ctx, student, course_ids);
            }
        },
        Call::ArchiveCourse { ctx, admin1, admin2, course_id, students } => {
            if let Some(l) = students {
                if let Some(t) = m.treasury {
                    if m.courses.contains_key(course_id@) {
                        let c = m.courses[course_id@];
                        if archive_refunds(m, ctx, course_id, c, t, l) is Ok {
                            lemma_archive_refunds_keeps_tokens(m, ctx, course_id, c, t, l);
                        }
                    }
                }
            }
        },
        _ => {},
    }
}

proof fn lemma_run_keeps_token_unapproved(m: Model, calls: Seq<Call>, token: Seq<char>)
    requires
        !m.approved_tokens.contains(token),
        forall|i: int|
            0 <= i < calls.len() ==> !(#[trigger] calls[i] matches Call::AddApprovedToken {
                token: t,
                ..
            } && t@ == token),
    ensures
        !run(m, calls).approved_tokens.contains(token),
    decreases calls.len(),
{
    if calls.len() > 0 {
        let rest = calls.drop_last();
        assert forall|i: int| 0 <= i < rest.len() implies !(#[trigger] rest[i] matches Call::AddApprovedToken {
            token: t,
            ..
        } && t@ == token) by {
            assert(rest[i] == calls[i]);
        }
        lemma_run_keeps_token_unapproved(m, rest, token);
        assert(calls.last() == calls[calls.len() - 1]);
        lemma_step_keeps_token_unapproved(run(m, rest), calls.last(), token);
    }
}

/// A removed token stays refused: after an admin removes a token, and over
/// any later calls that do not add it back, no enrollment in a course priced
/// in it succeeds, alone or in a batch; an enrollment that every other check
/// would let through is refused because the token is not approved.
pub proof fn law_removed_token_stays_refused(
    m: Model,
    ctx: CallContext,
    admin: String,
    token: String,
    calls: Seq<Call>,
    ctx2: CallContext,
    student: String,
    course_id: String,
    ids: Seq<String>,
    j: int,
)
    requires
        remove_approved_token(m, ctx, admin, token) is Ok,
        forall|i: int|
            0 <= i < calls.len() ==> !(#[trigger] calls[i] matches Call::AddApprovedToken {
                token: t,
                ..
            } && t@ == token@),
    ensures
        ({
            let s = run(remove_approved_token(m, ctx, admin, token)->Ok_0.state, calls);
            &&& !s.approved_tokens.contains(token@)
            &&& s.courses.contains_key(course_id@) && s.courses[course_id@].token@ == token@ ==> {
                &&& enroll(s, ctx2, student, course_id) is Err
                &&& enrollment_check(
                    Model { approved_tokens: s.approved_tokens.insert(token@), ..s },
                    student,
                    course_id,
                ) is None ==> enroll(s, ctx2, student, course_id) == Err::<Step<()>, Error>(
                    Error::TokenNotApproved,
                )
                &&& 0 <= j < ids.len() && ids[j]@ == course_id@ ==> batch_enroll(
                    s,
                    ctx2,
                    student,
                    ids,
                ) is Err
            }
        }),
{
    let m1 = remove_approved_token(m, ctx, admin, token)->Ok_0.state;
    lemma_run_keeps_token_unapproved(m1, calls, token@);
    let s = run(m1, calls);
    if s.courses.contains_key(course_id@) && s.courses[course_id@].token@ == token@ && 0 <= j
        < ids.len() && ids[j]@ == course_id@ {
        assert(enrollment_check(s, student, ids[j]) is Some);
        lemma_first_error_found(s, student, ids, j);
    }
}

/// A withdrawal of `amount` (0 meaning the whole balance) succeeds exactly
/// when the amount is not negative and does not exceed the balance; it then
/// lowers the instructor's balance in that token by the amount withdrawn and
/// moves exactly that amount of the token from the platform's account to the
/// instructor, for a partial amount as for the whole balance.
pub proof fn law_withdrawal_pays_the_instructor(
    m: Model,
    ctx: CallContext,
    instructor: String,
    token: String,
    amount: i128,
)
    requires
        model_inv(m),
    ensures
        ({
            let bal = earnings_of(m, instructor, token);
            let w = if amount == 0 {
                bal
            } else {
                amount
            };
            let r = withdraw_earnings(m, ctx, instructor, token, amount);
            &&& r is Ok <==> 0 <= amount && w <= bal
            &&& r is Ok ==> {
                &&& earnings_of(r->Ok_0.state, instructor, token) == bal - w
                &&& r->Ok_0.auths == seq![instructor]
                &&& w > 0 ==> r->Ok_0.transfers == seq![
                    Transfer { token, from: ctx.contract, to: instructor, amount: w },
                ]
                &&& w == 0 ==> r->Ok_0.transfers.len() == 0
            }
        }),
{
    if m.earnings.contains_key((instructor@, token@)) {
        assert(m.earnings[(instructor@, token@)] > 0);
    }
}

/// Enrolling in the courses one call at a time, in order; refused at the
/// first refusal.
pub open spec fn enroll_each(m: Model, ctx: CallContext, student: String, ids: Seq<String>) -> Result<
    (Model, Seq<Transfer>, Seq<Event>),
    Error,
>
    decreases ids.len(),
{
    if ids.len() == 0 {
        Ok((m, seq![], seq![]))
    } else {
        match enroll_each(m, ctx, student, ids.drop_last()) {
            Err(e) => Err(e),
            Ok((m1, ts, es)) => match enroll(m1, ctx, student, ids.last()) {
                Err(e) => Err(e),
                Ok(s) => Ok((s.state, ts + s.transfers, es + s.events)),
            },
        }
    }
}

proof fn lemma_enroll_each_is_enroll_all(m: Model, ctx: CallContext, student: String, ids: Seq<String>)
    ensures
        enroll_all(m, ctx, student, ids) is Ok ==> enroll_each(m, ctx, student, ids) == enroll_all(
            m,
            ctx,
            student,
            ids,
        ),
    decreases ids.len(),
{
    if ids.len() > 0 {
        lemma_enroll_each_is_enroll_all(m, ctx, student, ids.drop_last());
        if enroll_all(m, ctx, student, ids) is Ok {
            let (m1, ts, es) = enroll_all(m, ctx, student, ids.drop_last())->Ok_0;
            let ev = enroll_all(m, ctx, student, ids)->Ok_0.2.last();
            assert(es + seq![ev] =~= es.push(ev));
        }
    }
}

/// A batch that succeeds does exactly what enrolling in each listed course
/// in turn does: the same final state, and the student is charged for every
/// course, the transfers and notices being those of the single enrollments
/// one after the other, in the order listed.
pub proof fn law_batch_is_enrollments_in_turn(
    m: Model,
    ctx: CallContext,
    student: String,
    ids: Seq<String>,
)
    requires
        batch_enroll(m, ctx, student, ids) is Ok,
    ensures
        ({
            let s = batch_enroll(m, ctx, student, ids)->Ok_0;
            enroll_each(m, ctx, student, ids) == Ok::<(Model, Seq<Transfer>, Seq<Event>), Error>(
                (s.state, s.transfers, s.events),
            )
        }),
{
    lemma_enroll_each_is_enroll_all(m, ctx, student, ids);
}

/// A certificate is issued as asked: it is stored under its identifier for
/// the student and course named, with the title and reference given, the
/// instructor of the certified course, the ledger of the call, the expiry
/// given and no revocation; the call answers the certificate's identifier.
pub proof fn law_issued_certificate_records_the_course(
    m: Model,
    ctx: CallContext,
    admin: String,
    certificate_id: String,
    student: String,
    course_id: String,
    course_title: String,
    enrollment_reference: String,
    expires_at_ledger: Option<u32>,
)
    requires
        issue_certificate(
            m,
            ctx,
            admin,
            certificate_id,
            student,
            course_id,
            course_title,
            enrollment_reference,
            expires_at_ledger,
        ) is Ok,
    ensures
        ({
            let s = issue_certificate(
                m,
                ctx,
                admin,
                certificate_id,
                student,
                course_id,
                course_title,
                enrollment_reference,
                expires_at_ledger,
            )->Ok_0;
            &&& m.courses.contains_key(course_id@)
            &&& s.value == certificate_id
            &&& s.state.certificates.contains_key(certificate_id@)
            &&& s.state.certificates[certificate_id@] == Certificate {
                id: certificate_id,
                student,
                course_id,
                course_title,
                enrollment_reference,
                instructor: m.courses[course_id@].instructor,
                issued_at_ledger: ctx.sequence,
                revoked: false,
                revoked_by: None,
                revoked_at_ledger: None,
                revocation_reason: None,
                expires_at_ledger,
            }
            &&& s.state.enrollments[(student@, course_id@)].certificate_id == Some(certificate_id)
        }),
{
}

/// Both admins may propose any new pair of two distinct addresses that
/// differs from the current pair in at least one position, so either admin
/// can be rotated alone; only the unchanged pair is refused as the same.
/// The proposal is recorded as pending and changes nothing else.
pub proof fn law_admin_proposal_accepted_when_pair_changes(
    m: Model,
    ctx: CallContext,
    admin1: String,
    admin2: String,
    new_admin: String,
    new_secondary_admin: String,
)
    requires
        multi_admin_check(m, admin1, admin2) is None,
    ensures
        ({
            let r = transfer_admin(m, ctx, admin1, admin2, new_admin, new_secondary_admin);
            let same = new_admin@ == m.admin.unwrap()@ && new_secondary_admin@
                == m.secondary_admin.unwrap()@;
            &&& same ==> r == Err::<Step<()>, Error>(Error::SameAdmins)
            &&& !same && new_admin@ == new_secondary_admin@ ==> r == Err::<Step<()>, Error>(
                Error::AdminsNotDistinct,
            )
            &&& !same && new_admin@ != new_secondary_admin@ ==> {
                &&& r is Ok
                &&& r->Ok_0.state == Model {
                    pending_admin: Some(new_admin),
                    pending_secondary_admin: Some(new_secondary_admin),
                    ..m
                }
            }
        }),
{
}

/// The emergency sweep: an admin moves exactly `amount` of `token` from the
/// platform's account to `destination`, and nothing else changes; anyone
/// else is refused.
pub proof fn law_token_sweep_goes_to_destination(
    m: Model,
    ctx: CallContext,
    admin: String,
    token: String,
    amount: i128,
    destination: String,
)
    ensures
        ({
            let r = withdraw_tokens(m, ctx, admin, token, amount, destination);
            &&& is_admin(m, admin) ==> {
                &&& r is Ok
                &&& r->Ok_0.state == m
                &&& r->Ok_0.transfers == seq![
                    Transfer { token, from: ctx.contract, to: destination, amount },
                ]
            }
            &&& !is_admin(m, admin) ==> r == Err::<Step<()>, Error>(
                Error::NotAdmin(AdminOp::WithdrawTokens),
            )
        }),
{
}

/// A registered course holds what was asked: its identifier, instructor,
/// price, token and capacity as given, the fee asked for (the platform
/// default when 0 is asked), no enrollments or earnings yet, the Pending
/// status and the ledger of the call.
pub proof fn law_registered_course_is_as_asked(
    m: Model,
    ctx: CallContext,
    instructor: String,
    course_id: String,
    price: i128,
    token: String,
    fee: u32,
    cap: Option<u32>,
)
    requires
        register_course(m, ctx, instructor, course_id, price, token, fee, cap) is Ok,
    ensures
        ({
            let s = register_course(m, ctx, instructor, course_id, price, token, fee, cap)->Ok_0;
            &&& s.value == course_id
            &&& s.state.courses[course_id@] == Course {
                id: course_id,
                instructor,
                price,
                platform_fee_percent: if fee == 0 {
                    m.default_fee
                } else {
                    fee
                },
                token,
                total_enrollments: 0,
                active_enrollments: 0,
                total_earned: 0,
                status: CourseStatus::Pending,
                created_at_ledger: ctx.sequence,
                max_capacity: cap,
            }
            &&& s.auths == seq![instructor]
            &&& s.transfers.len() == 0
        }),
{
}

/// An enrollment pays the platform's share to the treasury in force at the
/// ledger of the call: the pending treasury once its effective ledger is
/// reached, the current one before.
pub proof fn law_enrollment_fee_goes_to_treasury(
    m: Model,
    ctx: CallContext,
    student: String,
    course_id: String,
)
    requires
        model_inv(m),
        enroll(m, ctx, student, course_id) is Ok,
    ensures
        ({
            let c = m.courses[course_id@];
            let s = enroll(m, ctx, student, course_id)->Ok_0;
            let p = (c.price * c.platform_fee_percent) / 100;
            let treasury = match m.pending_treasury {
                Some(u) => if ctx.sequence >= u.effective_ledger {
                    u.address
                } else {
                    m.treasury.unwrap()
                },
                None => m.treasury.unwrap(),
            };
            &&& m.treasury is Some
            &&& c.price > 0 && p > 0 ==> s.transfers == seq![
                Transfer { token: c.token, from: student, to: ctx.contract, amount: c.price },
                Transfer { token: c.token, from: ctx.contract, to: treasury, amount: p as i128 },
            ]
            &&& s.auths == seq![student]
        }),
{
    let c = m.courses[course_id@];
    assert(course_ok(course_id@, c));
    crate::fees::lemma_fee_split_conserves(c.price, c.platform_fee_percent);
}

/// Marking an enrollment completed records it as completed with the
/// evidence given, lowers its course's active count by one and leaves every
/// other enrollment as it was; without evidence the student must authorize
/// too.
pub proof fn law_completion_is_recorded(
    m: Model,
    ctx: CallContext,
    admin: String,
    student: String,
    course_id: String,
    evidence_hash: Option<String>,
)
    requires
        model_inv(m),
        mark_completed(m, ctx, admin, student, course_id, evidence_hash) is Ok,
    ensures
        ({
            let s = mark_completed(m, ctx, admin, student, course_id, evidence_hash)->Ok_0;
            let key = (student@, course_id@);
            &&& s.state.enrollments[key] == Enrollment {
                completed: true,
                evidence_hash,
                ..m.enrollments[key]
            }
            &&& !m.enrollments[key].completed
            &&& s.state.courses[course_id@].active_enrollments == m.courses[course_id@].active_enrollments
                - 1
            &&& forall|k: (Seq<char>, Seq<char>)| k != key ==> s.state.enrollments.contains_key(k)
                == m.enrollments.contains_key(k) && s.state.enrollments[k] == m.enrollments[k]
            &&& s.auths == (if evidence_hash is None {
                seq![admin, student]
            } else {
                seq![admin]
            })
        }),
{
    let key = (student@, course_id@);
    let open = uncompleted(m.enrollments, course_id@);
    m.enrollments.dom().lemma_len_filter(
        |k: (Seq<char>, Seq<char>)| k.1 == course_id@ && !m.enrollments[k].completed,
    );
    assert(open.contains(key));
    assert(open.remove(key).len() == open.len() - 1);
}

/// A refund request records the amount the student paid for the enrollment,
/// the ledger of the call and the Pending status.
pub proof fn law_refund_request_records_payment(
    m: Model,
    ctx: CallContext,
    student: String,
    course_id: String,
)
    requires
        request_refund(m, ctx, student, course_id) is Ok,
    ensures
        ({
            let s = request_refund(m, ctx, student, course_id)->Ok_0;
            &&& s.state.refunds[(student@, course_id@)] == RefundRequest {
                student,
                course_id,
                amount: m.enrollments[(student@, course_id@)].amount_paid,
                requested_at_ledger: ctx.sequence,
                status: RefundStatus::Pending,
            }
            &&& s.state.enrollments == m.enrollments
            &&& s.transfers.len() == 0
        }),
{
}

} // verus!
