use hamplard::contract::HamplardContract;
use hamplard::fees::split_fee;
use hamplard::types::{AdminOp, CallContext, CourseStatus, Error, Event, RefundStatus, Transfer};

fn s(text: &str) -> String {
    text.to_string()
}

fn at(sequence: u32) -> CallContext {
    CallContext { sequence, contract: s("CONTRACT") }
}

const ADMIN: &str = "ADMIN";
const SEC: &str = "SECONDARY";
const TREASURY: &str = "TREASURY";
const TOKEN: &str = "TOKEN";
const TEACHER: &str = "TEACHER";
const STUDENT: &str = "STUDENT";

/// An initialized platform with an approved token and one active course.
fn platform_with_course(course: &str, price: i128) -> HamplardContract {
    let mut c = HamplardContract::new();
    c.init(&at(1), &s(ADMIN), &s(SEC), &s(TREASURY), 20, 50).unwrap();
    c.add_approved_token(&at(1), &s(ADMIN), &s(TOKEN)).unwrap();
    c.register_course(&at(1), &s(TEACHER), &s(course), price, &s(TOKEN), 0, None).unwrap();
    c.approve_course(&at(1), &s(ADMIN), &s(course)).unwrap();
    c
}

// ---------------- the fee split ----------------

#[test]
fn fee_split_exact_values() {
    assert_eq!(split_fee(1_000_000_000, 20), Ok((200_000_000, 800_000_000)));
    assert_eq!(split_fee(999, 33), Ok((329, 670)));
    assert_eq!(split_fee(0, 100), Ok((0, 0)));
    assert_eq!(split_fee(7, 0), Ok((0, 7)));
    assert_eq!(split_fee(-1500, 10), Ok((-150, -1350)));
    assert_eq!(split_fee(-1599, 10), Ok((-159, -1440)));
}

#[test]
fn fee_split_overflow_is_refused() {
    assert_eq!(split_fee(i128::MAX / 100 + 1, 100), Err(Error::FeeOverflow));
    assert_eq!(split_fee(i128::MAX, 2), Err(Error::FeeOverflow));
}

#[test]
fn fee_split_shares_add_up() {
    for (price, pct) in [(1i128, 1u32), (101, 50), (12_345_678, 37), (99, 100)] {
        let (p, i) = split_fee(price, pct).unwrap();
        assert_eq!(p + i, price);
        assert_eq!(p, price * pct as i128 / 100);
    }
}

// ---------------- enrollment records and pays ----------------

#[test]
fn enrollment_outcome_lists_payments_in_order() {
    let mut c = platform_with_course("C1", 1_000);
    let o = c.enroll(&at(5), &s(STUDENT), &s("C1")).unwrap();
    assert_eq!(o.auths, vec![s(STUDENT)]);
    assert_eq!(o.transfers.len(), 2);
    let first: &Transfer = &o.transfers[0];
    assert_eq!((first.from.as_str(), first.to.as_str(), first.amount), (STUDENT, "CONTRACT", 1_000));
    let second: &Transfer = &o.transfers[1];
    assert_eq!((second.from.as_str(), second.to.as_str(), second.amount), ("CONTRACT", TREASURY, 200));
    assert_eq!(c.get_instructor_earnings(&s(TEACHER), &s(TOKEN)), 800);
    match &o.events[0] {
        Event::StudentEnrolled { amount_paid, platform_fee, instructor_fee, ledger, .. } => {
            assert_eq!((*amount_paid, *platform_fee, *instructor_fee, *ledger), (1_000, 200, 800, 5));
        },
        _ => panic!("wrong notice"),
    }
}

#[test]
fn enrolling_twice_is_refused_and_changes_nothing() {
    let mut c = platform_with_course("C1", 1_000);
    c.enroll(&at(5), &s(STUDENT), &s("C1")).unwrap();
    let before = c.get_course(&s("C1")).unwrap();
    assert_eq!(c.enroll(&at(6), &s(STUDENT), &s("C1")).err(), Some(Error::AlreadyEnrolled));
    let after = c.get_course(&s("C1")).unwrap();
    assert_eq!(before.total_enrollments, after.total_enrollments);
    assert_eq!(c.get_instructor_earnings(&s(TEACHER), &s(TOKEN)), 800);
}

#[test]
fn paused_platform_refuses_enrollment() {
    let mut c = platform_with_course("C1", 1_000);
    c.pause_platform(&at(1), &s(ADMIN)).unwrap();
    assert_eq!(c.enroll(&at(5), &s(STUDENT), &s("C1")).err(), Some(Error::PlatformPaused));
    assert_eq!(
        c.batch_enroll(&at(5), &s(STUDENT), &vec![s("C1")]).err(),
        Some(Error::PlatformPaused)
    );
    c.unpause_platform(&at(1), &s(ADMIN)).unwrap();
    assert!(c.enroll(&at(5), &s(STUDENT), &s("C1")).is_ok());
}

#[test]
fn empty_batch_is_refused() {
    let mut c = platform_with_course("C1", 1_000);
    assert_eq!(c.batch_enroll(&at(5), &s(STUDENT), &vec![]).err(), Some(Error::EmptyBatch));
}

#[test]
fn batch_failure_leaves_no_enrollment() {
    let mut c = platform_with_course("C1", 1_000);
    c.register_course(&at(1), &s(TEACHER), &s("C2"), 10, &s(TOKEN), 0, None).unwrap();
    let r = c.batch_enroll(&at(5), &s(STUDENT), &vec![s("C1"), s("C2")]);
    assert_eq!(r.err(), Some(Error::CourseNotAvailable));
    assert!(!c.is_enrolled(&s(STUDENT), &s("C1")));
}

// ---------------- setup and governance errors ----------------

#[test]
fn init_refusals() {
    let mut c = HamplardContract::new();
    assert_eq!(c.init(&at(1), &s(ADMIN), &s(SEC), &s(TREASURY), 101, 5).err(), Some(Error::FeeTooHigh));
    assert_eq!(
        c.init(&at(1), &s(ADMIN), &s(SEC), &s("CONTRACT"), 10, 5).err(),
        Some(Error::TreasuryIsContract)
    );
    assert_eq!(c.init(&at(1), &s(ADMIN), &s(SEC), &s(ADMIN), 10, 5).err(), Some(Error::AdminIsTreasury));
    assert_eq!(
        c.init(&at(1), &s(ADMIN), &s(SEC), &s(SEC), 10, 5).err(),
        Some(Error::SecondaryAdminIsTreasury)
    );
    assert_eq!(
        c.init(&at(1), &s(ADMIN), &s(ADMIN), &s(TREASURY), 10, 5).err(),
        Some(Error::AdminsNotDistinct)
    );
    assert_eq!(c.get_platform_fee(), 20);
    assert_eq!(c.get_max_courses_limit(), 50);
}

#[test]
fn two_admin_operations_need_both_admins() {
    let mut fresh = HamplardContract::new();
    assert_eq!(
        fresh.transfer_admin(&at(1), &s(ADMIN), &s(SEC), &s("N1"), &s("N2")).err(),
        Some(Error::NotInitialized)
    );
    let mut c = platform_with_course("C1", 1_000);
    assert_eq!(
        c.transfer_admin(&at(1), &s(ADMIN), &s("OTHER"), &s("N1"), &s("N2")).err(),
        Some(Error::NotBothAdmins)
    );
    assert!(c.transfer_admin(&at(1), &s(SEC), &s(ADMIN), &s("N1"), &s("N2")).is_ok());
}

#[test]
fn treasury_update_refusals() {
    let mut c = platform_with_course("C1", 1_000);
    assert_eq!(c.update_treasury(&at(1), &s(ADMIN), &s(SEC), &s(ADMIN)).err(), Some(Error::TreasuryIsAdmin));
    assert_eq!(
        c.update_treasury(&at(1), &s(ADMIN), &s(SEC), &s(SEC)).err(),
        Some(Error::TreasuryIsSecondaryAdmin)
    );
    assert_eq!(
        c.update_treasury(&at(1), &s(ADMIN), &s(SEC), &s("CONTRACT")).err(),
        Some(Error::TreasuryIsContract)
    );
    assert_eq!(
        c.update_treasury(&at(u32::MAX - 50), &s(ADMIN), &s(SEC), &s("NEW")).err(),
        Some(Error::LedgerOverflow)
    );
}

#[test]
fn treasury_change_takes_effect_after_delay() {
    let mut c = platform_with_course("C1", 1_000);
    c.update_treasury(&at(10), &s(ADMIN), &s(SEC), &s("NEW-TREASURY")).unwrap();
    let o = c.enroll(&at(109), &s("S1"), &s("C1")).unwrap();
    assert_eq!(o.transfers[1].to, s(TREASURY));
    let o = c.enroll(&at(110), &s("S2"), &s("C1")).unwrap();
    assert_eq!(o.transfers[1].to, s("NEW-TREASURY"));
}

#[test]
fn admin_handover_moves_rights() {
    let mut c = platform_with_course("C1", 1_000);
    c.transfer_admin(&at(1), &s(ADMIN), &s(SEC), &s("N1"), &s("N2")).unwrap();
    assert_eq!(c.accept_admin(&at(3), &s("N2"), &s("N1")).err(), Some(Error::NotPendingAdmins));
    let o = c.accept_admin(&at(3), &s("N1"), &s("N2")).unwrap();
    assert_eq!(o.auths, vec![s("N1"), s("N2")]);
    assert_eq!(c.update_default_fee(&at(1), &s(ADMIN), 10).err(), Some(Error::NotAdmin(AdminOp::UpdateDefaultFee)));
    assert!(c.update_default_fee(&at(1), &s("N1"), 10).is_ok());
    assert_eq!(c.accept_admin(&at(4), &s("N1"), &s("N2")).err(), Some(Error::NoPendingAdmin));
}

#[test]
fn course_registration_refusals() {
    let mut c = platform_with_course("C1", 1_000);
    assert_eq!(
        c.register_course(&at(1), &s(TEACHER), &s("C2"), -1, &s(TOKEN), 0, None).err(),
        Some(Error::NegativePrice)
    );
    assert_eq!(
        c.register_course(&at(1), &s(TEACHER), &s("C2"), 1, &s(TOKEN), 10, None).err(),
        Some(Error::FeeBelowMinimum)
    );
    assert_eq!(
        c.register_course(&at(1), &s(TEACHER), &s("C2"), 1, &s(TOKEN), 101, None).err(),
        Some(Error::FeeTooHigh)
    );
    assert_eq!(
        c.register_course(&at(1), &s(TEACHER), &s("C2"), 1, &s("UNKNOWN"), 0, None).err(),
        Some(Error::TokenNotApproved)
    );
    // a multi-byte identifier is measured in bytes
    let wide = "é".repeat(129);
    assert_eq!(
        c.register_course(&at(1), &s(TEACHER), &wide, 1, &s(TOKEN), 0, None).err(),
        Some(Error::CourseIdTooLong)
    );
    assert_eq!(c.get_instructor_course_count(&s(TEACHER)), 1);
}

#[test]
fn course_status_transitions() {
    let mut c = platform_with_course("C1", 1_000);
    assert_eq!(c.pause_course(&at(1), &s("STRANGER"), &s("C1")).err(), Some(Error::Unauthorized));
    assert_eq!(c.unpause_course(&at(1), &s(TEACHER), &s("C1")).err(), Some(Error::CourseNotPaused));
    assert_eq!(c.pause_course(&at(1), &s(TEACHER), &s("NOPE")).err(), Some(Error::CourseNotFound));
    c.pause_course(&at(1), &s(TEACHER), &s("C1")).unwrap();
    assert_eq!(c.pause_course(&at(1), &s(TEACHER), &s("C1")).err(), Some(Error::CourseNotActive));
    c.archive_course(&at(2), &s(ADMIN), &s(SEC), &s("C1"), &None).unwrap();
    assert_eq!(c.get_course(&s("C1")).unwrap().status, CourseStatus::Archived);
    assert_eq!(c.unpause_course(&at(1), &s(TEACHER), &s("C1")).err(), Some(Error::CourseNotPaused));
    assert_eq!(c.approve_course(&at(3), &s(ADMIN), &s("C1")).err(), Some(Error::CourseNotPending));
}

#[test]
fn archive_with_active_enrollment_is_refused_and_changes_nothing() {
    let mut c = platform_with_course("C1", 1_000);
    c.enroll(&at(2), &s(STUDENT), &s("C1")).unwrap();
    c.pause_course(&at(1), &s(TEACHER), &s("C1")).unwrap();
    assert_eq!(
        c.archive_course(&at(3), &s(ADMIN), &s(SEC), &s("C1"), &Some(vec![s("SOMEONE-ELSE")])).err(),
        Some(Error::ActiveEnrollmentsRemain)
    );
    assert_eq!(c.get_course(&s("C1")).unwrap().status, CourseStatus::Paused);
    assert!(c.is_enrolled(&s(STUDENT), &s("C1")));
}

#[test]
fn archive_refund_fails_when_earnings_were_withdrawn() {
    let mut c = platform_with_course("C1", 1_000);
    c.enroll(&at(2), &s(STUDENT), &s("C1")).unwrap();
    c.withdraw_earnings(&at(2), &s(TEACHER), &s(TOKEN), 0).unwrap();
    c.pause_course(&at(1), &s(TEACHER), &s("C1")).unwrap();
    assert_eq!(
        c.archive_course(&at(3), &s(ADMIN), &s(SEC), &s("C1"), &Some(vec![s(STUDENT)])).err(),
        Some(Error::InsufficientEarningsForRefund)
    );
    assert!(c.is_enrolled(&s(STUDENT), &s("C1")));
}

#[test]
fn withdrawal_refusals_and_partial_withdrawal() {
    let mut c = platform_with_course("C1", 1_000);
    c.enroll(&at(2), &s(STUDENT), &s("C1")).unwrap();
    assert_eq!(
        c.withdraw_earnings(&at(2), &s(TEACHER), &s(TOKEN), -1).err(),
        Some(Error::NegativeWithdrawal)
    );
    assert_eq!(
        c.withdraw_earnings(&at(2), &s(TEACHER), &s(TOKEN), 801).err(),
        Some(Error::InsufficientEarnings)
    );
    let o = c.withdraw_earnings(&at(2), &s(TEACHER), &s(TOKEN), 300).unwrap();
    assert_eq!(o.transfers[0].amount, 300);
    assert_eq!(c.get_instructor_earnings(&s(TEACHER), &s(TOKEN)), 500);
}

// ---------------- completion, certificates ----------------

#[test]
fn certificate_refusals() {
    let mut c = platform_with_course("C1", 1_000);
    assert_eq!(
        c.mark_completed(&at(1), &s(ADMIN), &s(STUDENT), &s("C1"), &None).err(),
        Some(Error::EnrollmentNotFound)
    );
    c.enroll(&at(2), &s(STUDENT), &s("C1")).unwrap();
    c.mark_completed(&at(1), &s(ADMIN), &s(STUDENT), &s("C1"), &None).unwrap();
    assert_eq!(c.get_course(&s("C1")).unwrap().active_enrollments, 0);
    c.issue_certificate(&at(3), &s(ADMIN), &s("CERT"), &s(STUDENT), &s("C1"), &s("T"), &s("R"), None).unwrap();
    assert_eq!(
        c.issue_certificate(&at(3), &s(ADMIN), &s("CERT2"), &s(STUDENT), &s("C1"), &s("T"), &s("R"), None).err(),
        Some(Error::CertificateAlreadyIssued)
    );
    assert_eq!(
        c.revoke_certificate(&at(4), &s(ADMIN), &s("MISSING"), &s("X")).err(),
        Some(Error::CertificateNotFound)
    );
    c.revoke_certificate(&at(4), &s(ADMIN), &s("CERT"), &s("X")).unwrap();
    assert_eq!(
        c.revoke_certificate(&at(5), &s(ADMIN), &s("CERT"), &s("Y")).err(),
        Some(Error::AlreadyRevoked)
    );
    assert!(!c.verify_certificate(&at(0), &s("CERT")));
    assert_eq!(c.get_certificate(&s("MISSING")).err(), Some(Error::CertificateNotFound));
}

// ---------------- refunds ----------------

#[test]
fn refund_request_refusals() {
    let mut c = platform_with_course("C1", 1_000);
    assert_eq!(c.request_refund(&at(2), &s(STUDENT), &s("C1")).err(), Some(Error::EnrollmentNotFound));
    c.enroll(&at(2), &s(STUDENT), &s("C1")).unwrap();
    assert_eq!(
        c.process_refund(&at(2), &s(ADMIN), &s(STUDENT), &s("C1"), true).err(),
        Some(Error::RefundRequestNotFound)
    );
    c.request_refund(&at(2), &s(STUDENT), &s("C1")).unwrap();
    assert_eq!(c.request_refund(&at(2), &s(STUDENT), &s("C1")).err(), Some(Error::RefundAlreadyRequested));
    assert_eq!(
        c.process_refund(&at(2), &s(TEACHER), &s(STUDENT), &s("C1"), true).err(),
        Some(Error::NotAdmin(AdminOp::ProcessRefund))
    );
    let o = c.process_refund(&at(2), &s(ADMIN), &s(STUDENT), &s("C1"), true).unwrap();
    let total: i128 = o.transfers.iter().map(|t| t.amount).sum();
    assert_eq!(total, 1_000);
    assert_eq!(c.get_refund_request(&s(STUDENT), &s("C1")).unwrap().status, RefundStatus::Approved);
    assert_eq!(
        c.process_refund(&at(2), &s(ADMIN), &s(STUDENT), &s("C1"), true).err(),
        Some(Error::RefundNotPending)
    );
    assert_eq!(c.get_course(&s("C1")).unwrap().active_enrollments, 0);
}

// ---------------- catalog paging ----------------

#[test]
fn catalog_pages() {
    let mut c = platform_with_course("C1", 1);
    c.register_course(&at(1), &s(TEACHER), &s("C2"), 1, &s(TOKEN), 0, None).unwrap();
    c.register_course(&at(1), &s(TEACHER), &s("C3"), 1, &s(TOKEN), 0, None).unwrap();
    assert_eq!(c.list_courses(0, 2), vec![s("C1"), s("C2")]);
    assert_eq!(c.list_courses(1, 10), vec![s("C2"), s("C3")]);
    assert_eq!(c.list_courses(5, 10), Vec::<String>::new());
    assert_eq!(c.list_courses(0, 0), Vec::<String>::new());
    assert_eq!(c.list_courses(1, u32::MAX), vec![s("C2"), s("C3")]);
    assert_eq!(c.list_courses(3, u32::MAX), Vec::<String>::new());
    assert_eq!(c.list_courses(u32::MAX, u32::MAX), Vec::<String>::new());
    assert_eq!(c.list_courses(0, u32::MAX).len(), 3);
}

#[test]
fn error_messages() {
    assert_eq!(Error::CourseNotFound.message(), "course not found");
    assert_eq!(AdminOp::ApproveCourse.name(), "approve_course");
    assert_eq!(Error::DuplicateInBatch.message(), "duplicate course in batch");
}

// ---------------- saving and loading ----------------

#[test]
fn saved_state_loads_back() {
    let mut c = platform_with_course("C1", 1_000);
    c.enroll(&at(5), &s(STUDENT), &s("C1")).unwrap();
    c.freeze_instructor(&s(ADMIN), &s("OTHER")).unwrap();
    let parts = c.to_parts();
    assert_eq!(parts.courses.len(), 1);
    assert_eq!(parts.enrollments.len(), 1);
    assert_eq!(parts.earnings, vec![(s(TEACHER), s(TOKEN), 800)]);
    assert_eq!(parts.course_counts, vec![(s(TEACHER), 1)]);
    assert_eq!(parts.catalog, vec![s("C1")]);
    let back = HamplardContract::from_parts(parts).unwrap();
    assert!(back.is_enrolled(&s(STUDENT), &s("C1")));
    assert!(back.is_instructor_frozen(&s("OTHER")));
    assert!(back.is_token_approved(&s(TOKEN)));
    assert_eq!(back.get_instructor_earnings(&s(TEACHER), &s(TOKEN)), 800);
    assert_eq!(back.get_course(&s("C1")).unwrap().total_enrollments, 1);
    assert_eq!(back.get_platform_fee(), 20);
}

#[test]
fn loading_a_repeated_course_is_refused() {
    let c = platform_with_course("C1", 1_000);
    let mut parts = c.to_parts();
    let copy = c.to_parts().courses.pop().unwrap();
    parts.courses.push(copy);
    assert_eq!(HamplardContract::from_parts(parts).err(), Some(Error::InvalidState));
}

#[test]
fn loading_an_enrollment_of_an_unknown_course_is_refused() {
    let mut c = platform_with_course("C1", 1_000);
    c.enroll(&at(5), &s(STUDENT), &s("C1")).unwrap();
    let mut parts = c.to_parts();
    parts.courses.clear();
    parts.catalog.clear();
    assert_eq!(HamplardContract::from_parts(parts).err(), Some(Error::InvalidState));
}

#[test]
fn loading_a_fee_above_one_hundred_is_refused() {
    let c = platform_with_course("C1", 1_000);
    let mut parts = c.to_parts();
    parts.default_fee = 101;
    assert_eq!(HamplardContract::from_parts(parts).err(), Some(Error::InvalidState));
}

// ---------------- round trips ----------------

#[test]
fn pausing_and_unpausing_restores_the_course() {
    let mut c = platform_with_course("C1", 1_000);
    c.enroll(&at(2), &s(STUDENT), &s("C1")).unwrap();
    let before = c.get_course(&s("C1")).unwrap();
    c.pause_course(&at(1), &s(ADMIN), &s("C1")).unwrap();
    assert_eq!(c.get_course(&s("C1")).unwrap().status, CourseStatus::Paused);
    assert!(c.is_enrolled(&s(STUDENT), &s("C1")));
    c.unpause_course(&at(1), &s(ADMIN), &s("C1")).unwrap();
    let after = c.get_course(&s("C1")).unwrap();
    assert_eq!(after.status, before.status);
    assert_eq!(after.total_enrollments, before.total_enrollments);
    assert_eq!(after.active_enrollments, before.active_enrollments);
    assert_eq!(after.total_earned, before.total_earned);
}

#[test]
fn pages_read_the_catalog_without_gaps() {
    let mut c = platform_with_course("C1", 1);
    for id in ["C2", "C3", "C4", "C5"] {
        c.register_course(&at(1), &s(TEACHER), &s(id), 1, &s(TOKEN), 0, None).unwrap();
    }
    let mut joined = c.list_courses(1, 2);
    joined.extend(c.list_courses(3, 5));
    assert_eq!(joined, c.list_courses(1, 7));
    assert_eq!(joined, vec![s("C2"), s("C3"), s("C4"), s("C5")]);
}

// ---------------- notices ----------------

#[test]
fn archive_notice_counts_the_refunds() {
    let mut c = platform_with_course("C1", 1_000);
    c.enroll(&at(2), &s(STUDENT), &s("C1")).unwrap();
    c.enroll(&at(2), &s("STUDENT2"), &s("C1")).unwrap();
    c.pause_course(&at(3), &s(TEACHER), &s("C1")).unwrap();
    let o = c
        .archive_course(&at(4), &s(ADMIN), &s(SEC), &s("C1"), &Some(vec![s(STUDENT), s("STUDENT2"), s("NOBODY")]))
        .unwrap();
    match &o.events[0] {
        Event::CourseArchived { admin1, admin2, course_id, refund_count, total_refunded, ledger } => {
            assert_eq!((admin1.as_str(), admin2.as_str(), course_id.as_str()), (ADMIN, SEC, "C1"));
            assert_eq!((*refund_count, *total_refunded, *ledger), (2, 2_000, 4));
        },
        _ => panic!("wrong notice"),
    }
    let refunded: i128 = o.transfers.iter().map(|t| t.amount).sum();
    assert_eq!(refunded, 2_000);
    assert!(!c.is_enrolled(&s(STUDENT), &s("C1")));
}

#[test]
fn registration_and_completion_notices() {
    let mut c = platform_with_course("C1", 1_000);
    let o = c.register_course(&at(7), &s(TEACHER), &s("C2"), 55, &s(TOKEN), 30, None).unwrap();
    match &o.events[0] {
        Event::CourseRegistered { instructor, course_id, price, token, fee_percent, ledger } => {
            assert_eq!((instructor.as_str(), course_id.as_str(), token.as_str()), (TEACHER, "C2", TOKEN));
            assert_eq!((*price, *fee_percent, *ledger), (55, 30, 7));
        },
        _ => panic!("wrong notice"),
    }
    c.enroll(&at(8), &s(STUDENT), &s("C1")).unwrap();
    let o = c.mark_completed(&at(9), &s(ADMIN), &s(STUDENT), &s("C1"), &Some(s("HASH"))).unwrap();
    match &o.events[0] {
        Event::CourseCompleted { admin, student, course_id, has_evidence, ledger } => {
            assert_eq!((admin.as_str(), student.as_str(), course_id.as_str()), (ADMIN, STUDENT, "C1"));
            assert_eq!((*has_evidence, *ledger), (true, 9));
        },
        _ => panic!("wrong notice"),
    }
    let o = c.pause_platform(&at(10), &s(ADMIN)).unwrap();
    match &o.events[0] {
        Event::PlatformPaused { admin, ledger } => assert_eq!((admin.as_str(), *ledger), (ADMIN, 10)),
        _ => panic!("wrong notice"),
    }
}

// ---------------- loaded states keep the invariant ----------------

#[test]
fn loading_one_address_as_both_admins_is_refused() {
    let c = platform_with_course("C1", 1_000);
    let mut parts = c.to_parts();
    parts.secondary_admin = parts.admin.clone();
    assert_eq!(HamplardContract::from_parts(parts).err(), Some(Error::InvalidState));
}

#[test]
fn loading_a_wrong_active_count_is_refused() {
    let mut c = platform_with_course("C1", 1_000);
    c.enroll(&at(2), &s(STUDENT), &s("C1")).unwrap();
    let mut parts = c.to_parts();
    assert_eq!(parts.courses[0].active_enrollments, 1);
    parts.courses[0].active_enrollments = 0;
    assert_eq!(HamplardContract::from_parts(parts).err(), Some(Error::InvalidState));
}

#[test]
fn one_address_cannot_act_as_both_admins() {
    let mut c = platform_with_course("C1", 1_000);
    assert_eq!(
        c.update_treasury(&at(2), &s(ADMIN), &s(ADMIN), &s("NEWT")).err(),
        Some(Error::NotBothAdmins)
    );
}

#[test]
fn removed_token_stays_refused_until_added_back() {
    let mut c = platform_with_course("C1", 1_000);
    c.remove_approved_token(&at(2), &s(ADMIN), &s(TOKEN)).unwrap();
    c.pause_platform(&at(3), &s(ADMIN)).unwrap();
    c.unpause_platform(&at(4), &s(ADMIN)).unwrap();
    c.freeze_instructor(&s(ADMIN), &s("OTHER")).unwrap();
    assert_eq!(c.enroll(&at(5), &s(STUDENT), &s("C1")).err(), Some(Error::TokenNotApproved));
    assert_eq!(c.batch_enroll(&at(5), &s(STUDENT), &vec![s("C1")]).err(), Some(Error::TokenNotApproved));
    assert!(!c.is_enrolled(&s(STUDENT), &s("C1")));
    c.add_approved_token(&at(6), &s(ADMIN), &s(TOKEN)).unwrap();
    assert!(c.enroll(&at(7), &s(STUDENT), &s("C1")).is_ok());
}
