use hamplard::contract::HamplardContract;
use hamplard::types::{
    CallContext, Certificate, Course, CourseStatus, Enrollment, Error, Event, Outcome,
    RefundRequest, RefundStatus, Transfer,
};
use std::collections::HashMap;

// ============================================================
// A small ledger around the library: token balances, the ledger
// sequence, the notices and authorizations of the last call.
// ============================================================

struct Env {
    c: HamplardContract,
    sequence: u32,
    contract: String,
    balances: HashMap<(String, String), i128>,
    events: Vec<Event>,
    auths: Vec<String>,
    next_id: u32,
}

fn s(text: &str) -> String {
    text.to_string()
}

fn message(e: Error) -> String {
    match e {
        Error::NotAdmin(op) => format!("unauthorized: {} - caller is not admin", op.name()),
        other => other.message().to_string(),
    }
}

impl Env {
    fn new() -> Env {
        Env {
            c: HamplardContract::new(),
            sequence: 0,
            contract: s("CONTRACT"),
            balances: HashMap::new(),
            events: Vec::new(),
            auths: Vec::new(),
            next_id: 0,
        }
    }

    fn ctx(&self) -> CallContext {
        CallContext { sequence: self.sequence, contract: self.contract.clone() }
    }

    fn generate(&mut self) -> String {
        self.next_id += 1;
        format!("G-ACCOUNT-{}", self.next_id)
    }

    fn mint(&mut self, token: &String, to: &String, amount: i128) {
        *self.balances.entry((token.clone(), to.clone())).or_insert(0) += amount;
    }

    fn balance(&self, token: &String, who: &String) -> i128 {
        *self.balances.get(&(token.clone(), who.clone())).unwrap_or(&0)
    }

    fn transfer(&mut self, t: Transfer) {
        assert!(t.amount >= 0, "negative amount");
        let from = self.balance(&t.token, &t.from);
        if from < t.amount {
            panic!("balance is not sufficient to spend");
        }
        *self.balances.entry((t.token.clone(), t.from.clone())).or_insert(0) -= t.amount;
        *self.balances.entry((t.token.clone(), t.to.clone())).or_insert(0) += t.amount;
    }

    fn apply<T>(&mut self, r: Result<Outcome<T>, Error>) -> T {
        match r {
            Ok(o) => {
                for t in o.transfers {
                    self.transfer(t);
                }
                self.events = o.events;
                self.auths = o.auths;
                o.value
            },
            Err(e) => panic!("{}", message(e)),
        }
    }

    fn ok<T>(r: Result<T, Error>) -> T {
        match r {
            Ok(v) => v,
            Err(e) => panic!("{}", message(e)),
        }
    }

    // ---- the contract's entry points ----

    fn init(&mut self, admin: &String, sec: &String, treasury: &String, fee: u32, max: u32) {
        let ctx = self.ctx();
        let r = self.c.init(&ctx, admin, sec, treasury, fee, max);
        self.apply(r)
    }

    fn register_course(
        &mut self,
        instructor: &String,
        id: &String,
        price: i128,
        token: &String,
        fee: u32,
        cap: Option<u32>,
    ) -> String {
        let ctx = self.ctx();
        let r = self.c.register_course(&ctx, instructor, id, price, token, fee, cap);
        self.apply(r)
    }

    fn approve_course(&mut self, admin: &String, id: &String) {
        let ctx = self.ctx();
        let r = self.c.approve_course(&ctx, admin, id);
        self.apply(r)
    }

    fn pause_course(&mut self, caller: &String, id: &String) {
        let ctx = self.ctx();
        let r = self.c.pause_course(&ctx, caller, id);
        self.apply(r)
    }

    fn unpause_course(&mut self, caller: &String, id: &String) {
        let ctx = self.ctx();
        let r = self.c.unpause_course(&ctx, caller, id);
        self.apply(r)
    }

    fn archive_course(&mut self, a1: &String, a2: &String, id: &String, refunds: Option<Vec<String>>) {
        let ctx = self.ctx();
        let r = self.c.archive_course(&ctx, a1, a2, id, &refunds);
        self.apply(r)
    }

    fn enroll(&mut self, student: &String, id: &String) {
        let ctx = self.ctx();
        let r = self.c.enroll(&ctx, student, id);
        self.apply(r)
    }

    fn batch_enroll(&mut self, student: &String, ids: Vec<String>) {
        let ctx = self.ctx();
        let r = self.c.batch_enroll(&ctx, student, &ids);
        self.apply(r)
    }

    fn withdraw_earnings(&mut self, instructor: &String, token: &String, amount: i128) {
        let ctx = self.ctx();
        let r = self.c.withdraw_earnings(&ctx, instructor, token, amount);
        self.apply(r)
    }

    fn get_instructor_earnings(&self, instructor: &String, token: &String) -> i128 {
        self.c.get_instructor_earnings(instructor, token)
    }

    fn mark_completed(&mut self, admin: &String, student: &String, id: &String, evidence: Option<String>) {
        let ctx = self.ctx();
        let r = self.c.mark_completed(&ctx, admin, student, id, &evidence);
        self.apply(r)
    }

    fn issue_certificate(
        &mut self,
        admin: &String,
        cert: &String,
        student: &String,
        id: &String,
        title: &String,
        reference: &String,
        expires: Option<u32>,
    ) -> String {
        let ctx = self.ctx();
        let r = self.c.issue_certificate(&ctx, admin, cert, student, id, title, reference, expires);
        self.apply(r)
    }

    fn revoke_certificate(&mut self, admin: &String, cert: &String, reason: &String) {
        let ctx = self.ctx();
        let r = self.c.revoke_certificate(&ctx, admin, cert, reason);
        self.apply(r)
    }

    fn pause_platform(&mut self, admin: &String) {
        let ctx = self.ctx();
        let r = self.c.pause_platform(&ctx, admin);
        self.apply(r)
    }

    fn transfer_admin(&mut self, a1: &String, a2: &String, na: &String, ns: &String) {
        let ctx = self.ctx();
        let r = self.c.transfer_admin(&ctx, a1, a2, na, ns);
        self.apply(r)
    }

    fn accept_admin(&mut self, na: &String, ns: &String) {
        let ctx = self.ctx();
        let r = self.c.accept_admin(&ctx, na, ns);
        self.apply(r)
    }

    fn update_treasury(&mut self, a1: &String, a2: &String, t: &String) {
        let ctx = self.ctx();
        let r = self.c.update_treasury(&ctx, a1, a2, t);
        self.apply(r)
    }

    fn update_default_fee(&mut self, admin: &String, fee: u32) {
        let ctx = self.ctx();
        let r = self.c.update_default_fee(&ctx, admin, fee);
        self.apply(r)
    }

    fn add_approved_token(&mut self, admin: &String, token: &String) {
        let ctx = self.ctx();
        let r = self.c.add_approved_token(&ctx, admin, token);
        self.apply(r)
    }

    fn remove_approved_token(&mut self, admin: &String, token: &String) {
        let ctx = self.ctx();
        let r = self.c.remove_approved_token(&ctx, admin, token);
        self.apply(r)
    }

    fn update_max_courses_limit(&mut self, admin: &String, max: u32) {
        let r = self.c.update_max_courses_limit(admin, max);
        self.apply(r)
    }

    fn update_min_review_delay(&mut self, admin: &String, delay: u32) {
        let r = self.c.update_min_review_delay(admin, delay);
        self.apply(r)
    }

    fn update_refund_window(&mut self, admin: &String, window: u32) {
        let r = self.c.update_refund_window(admin, window);
        self.apply(r)
    }

    fn freeze_instructor(&mut self, admin: &String, instructor: &String) {
        let r = self.c.freeze_instructor(admin, instructor);
        self.apply(r)
    }

    fn unfreeze_instructor(&mut self, admin: &String, instructor: &String) {
        let r = self.c.unfreeze_instructor(admin, instructor);
        self.apply(r)
    }

    fn request_refund(&mut self, student: &String, id: &String) {
        let ctx = self.ctx();
        let r = self.c.request_refund(&ctx, student, id);
        self.apply(r)
    }

    fn process_refund(&mut self, admin: &String, student: &String, id: &String, approve: bool) {
        let ctx = self.ctx();
        let r = self.c.process_refund(&ctx, admin, student, id, approve);
        self.apply(r)
    }

    fn get_course(&self, id: &String) -> Course {
        Env::ok(self.c.get_course(id))
    }

    fn get_certificate(&self, id: &String) -> Certificate {
        Env::ok(self.c.get_certificate(id))
    }

    fn get_enrollment(&mut self, caller: &String, student: &String, id: &String) -> Option<Enrollment> {
        let r = self.c.get_enrollment(caller, student, id);
        self.apply(r)
    }

    fn get_refund_request(&self, student: &String, id: &String) -> Option<RefundRequest> {
        self.c.get_refund_request(student, id)
    }

    fn verify_certificate(&self, id: &String) -> bool {
        self.c.verify_certificate(&self.ctx(), id)
    }
}

struct Setup {
    env: Env,
    token: String,
    admin: String,
    sec_admin: String,
    treasury: String,
    instructor: String,
}

fn setup() -> Setup {
    let mut env = Env::new();
    let token = s("TOKEN-USDC");
    let admin = env.generate();
    let sec_admin = env.generate();
    let treasury = env.generate();
    let instructor = env.generate();
    let student = env.generate();
    env.mint(&token, &student, 100_000_000_000);
    env.init(&admin, &sec_admin, &treasury, 20, 50);
    env.add_approved_token(&admin, &token);
    Setup { env, token, admin, sec_admin, treasury, instructor }
}

fn register_and_approve_course(
    env: &mut Env,
    token: &String,
    admin: &String,
    instructor: &String,
    id: &str,
    price: i128,
) {
    env.register_course(instructor, &s(id), price, token, 0, None);
    env.approve_course(admin, &s(id));
}

fn student_enrolled_events(env: &Env) -> Vec<(String, String, i128, i128, i128, u32)> {
    let mut out = Vec::new();
    for e in &env.events {
        if let Event::StudentEnrolled { student, course_id, amount_paid, platform_fee, instructor_fee, ledger } = e {
            out.push((student.clone(), course_id.clone(), *amount_paid, *platform_fee, *instructor_fee, *ledger));
        }
    }
    out
}

// ============================================================
// INIT
// ============================================================

#[test]
fn test_init_success() {
    let t = setup();
    assert_eq!(t.env.c.get_platform_fee(), 20);
}

#[test]
fn test_admin_instance_ttl_extended_on_admin_ops() {
    let mut t = setup();
    t.env.sequence += 50_000;
    t.env.update_default_fee(&t.admin, 25);
    assert_eq!(t.env.c.get_platform_fee(), 25);
}

#[test]
fn test_treasury_instance_ttl_extended_on_transfer_admin() {
    let mut t = setup();
    let new_admin = t.env.generate();
    t.env.sequence += 50_000;
    let new_sec = t.env.generate();
    t.env.transfer_admin(&t.admin, &t.sec_admin, &new_admin, &new_sec);
    t.env.accept_admin(&new_admin, &new_sec);
    t.env.update_default_fee(&new_admin, 30);
    assert_eq!(t.env.c.get_platform_fee(), 30);
}

// ============================================================
// COURSE REGISTRATION
// ============================================================

#[test]
fn test_register_course_success() {
    let mut t = setup();
    let course_id = s("COURSE-TAILORING-001");
    t.env.register_course(&t.instructor, &course_id, 50_000_000, &t.token, 0, None);
    let course = t.env.get_course(&course_id);
    assert_eq!(course.status, CourseStatus::Pending);
    assert_eq!(course.price, 50_000_000);
    assert_eq!(course.platform_fee_percent, 20);
    assert_eq!(course.total_enrollments, 0);
}

#[test]
fn test_register_course_custom_fee() {
    let mut t = setup();
    t.env.register_course(&t.instructor, &s("COURSE-MAKEUP-001"), 100_000_000, &t.token, 30, None);
    let course = t.env.get_course(&s("COURSE-MAKEUP-001"));
    assert_eq!(course.platform_fee_percent, 30);
}

#[test]
#[should_panic(expected = "course already registered")]
fn test_register_duplicate_course() {
    let mut t = setup();
    let course_id = s("COURSE-DUP");
    t.env.register_course(&t.instructor, &course_id, 50_000_000, &t.token, 0, None);
    t.env.register_course(&t.instructor, &course_id, 50_000_000, &t.token, 0, None);
}

// ============================================================
// COURSE APPROVAL
// ============================================================

#[test]
fn test_approve_course_success() {
    let mut t = setup();
    let course_id = s("COURSE-BAKING-001");
    t.env.register_course(&t.instructor, &course_id, 75_000_000, &t.token, 0, None);
    t.env.approve_course(&t.admin, &course_id);
    assert_eq!(t.env.get_course(&course_id).status, CourseStatus::Active);
}

#[test]
#[should_panic(expected = "unauthorized: approve_course")]
fn test_approve_course_unauthorized() {
    let mut t = setup();
    let course_id = s("COURSE-HAIR-001");
    t.env.register_course(&t.instructor, &course_id, 60_000_000, &t.token, 0, None);
    t.env.approve_course(&t.instructor, &course_id);
}

#[test]
#[should_panic(expected = "course is not pending approval")]
fn test_approve_already_active_course() {
    let mut t = setup();
    let course_id = s("COURSE-NAILS-001");
    t.env.register_course(&t.instructor, &course_id, 50_000_000, &t.token, 0, None);
    t.env.approve_course(&t.admin, &course_id);
    t.env.approve_course(&t.admin, &course_id);
}

// ============================================================
// ENROLLMENT & PAYMENT
// ============================================================

#[test]
fn test_enroll_success_with_payment_split() {
    let mut t = setup();
    let student = t.env.generate();
    t.env.mint(&t.token, &student, 100_000_000_000);
    let price: i128 = 1_000_000_000;
    register_and_approve_course(&mut t.env, &t.token, &t.admin, &t.instructor, "COURSE-FASHION-001", price);
    let before = t.env.balance(&t.token, &student);
    t.env.enroll(&student, &s("COURSE-FASHION-001"));

    let platform_share = price * 20 / 100;
    let instructor_share = price - platform_share;
    assert_eq!(t.env.balance(&t.token, &t.treasury), platform_share);
    assert_eq!(t.env.balance(&t.token, &t.instructor), 0);
    assert_eq!(t.env.get_instructor_earnings(&t.instructor, &t.token), instructor_share);
    assert_eq!(t.env.balance(&t.token, &student), before - price);

    let enrollment = t.env.get_enrollment(&student, &student, &s("COURSE-FASHION-001")).unwrap();
    assert_eq!(enrollment.amount_paid, price);
    assert!(!enrollment.completed);
    assert!(!enrollment.certificate_issued);

    let course = t.env.get_course(&s("COURSE-FASHION-001"));
    assert_eq!(course.total_enrollments, 1);
    assert_eq!(course.total_earned, price);
}

#[test]
fn test_enroll_zero_price_free_course() {
    let mut t = setup();
    let student = t.env.generate();
    register_and_approve_course(&mut t.env, &t.token, &t.admin, &t.instructor, "COURSE-FREE-001", 0);
    t.env.enroll(&student, &s("COURSE-FREE-001"));
    let enrollment = t.env.get_enrollment(&student, &student, &s("COURSE-FREE-001")).unwrap();
    assert_eq!(enrollment.amount_paid, 0);
    let course = t.env.get_course(&s("COURSE-FREE-001"));
    assert_eq!(course.total_enrollments, 1);
    assert_eq!(course.total_earned, 0);
}

#[test]
#[should_panic(expected = "overflow computing platform fee")]
fn test_enroll_fee_overflow() {
    let mut t = setup();
    let overflow_price: i128 = i128::MAX / 100 + 1;
    t.env.register_course(&t.instructor, &s("COURSE-OVERFLOW-001"), overflow_price, &t.token, 100, None);
    t.env.approve_course(&t.admin, &s("COURSE-OVERFLOW-001"));
    let student = t.env.generate();
    t.env.mint(&t.token, &student, overflow_price);
    t.env.enroll(&student, &s("COURSE-OVERFLOW-001"));
}

#[test]
#[should_panic(expected = "already enrolled in this course")]
fn test_enroll_duplicate() {
    let mut t = setup();
    let student = t.env.generate();
    t.env.mint(&t.token, &student, 100_000_000_000);
    register_and_approve_course(&mut t.env, &t.token, &t.admin, &t.instructor, "COURSE-PHOTO-001", 500_000_000);
    let course_id = s("COURSE-PHOTO-001");
    t.env.enroll(&student, &course_id);
    t.env.enroll(&student, &course_id);
}

#[test]
fn test_enrollment_receipt_event_emitted_with_payment_breakdown() {
    let mut t = setup();
    let student = t.env.generate();
    t.env.mint(&t.token, &student, 100_000_000_000);
    let price: i128 = 1_000_000_000;
    register_and_approve_course(&mut t.env, &t.token, &t.admin, &t.instructor, "COURSE-EVENT-001", price);
    let course_id = s("COURSE-EVENT-001");
    let ledger_before = t.env.sequence;
    t.env.enroll(&student, &course_id);

    let events = student_enrolled_events(&t.env);
    assert_eq!(events.len(), 1);
    let (ev_student, ev_course, ev_amount, ev_platform, ev_instructor, ev_ledger) = events[0].clone();
    assert_eq!(ev_student, student);
    assert_eq!(ev_course, course_id);
    assert_eq!(ev_amount, price);
    let expected_platform_fee = price * 20 / 100;
    assert_eq!(ev_platform, expected_platform_fee);
    assert_eq!(ev_instructor, price - expected_platform_fee);
    assert!(ev_ledger >= ledger_before);
}

#[test]
#[should_panic(expected = "course is not available for enrollment")]
fn test_enroll_pending_course() {
    let mut t = setup();
    let student = t.env.generate();
    t.env.mint(&t.token, &student, 100_000_000_000);
    t.env.register_course(&t.instructor, &s("COURSE-PENDING"), 500_000_000, &t.token, 0, None);
    t.env.enroll(&student, &s("COURSE-PENDING"));
}

#[test]
#[should_panic(expected = "instructor cannot enroll in own course")]
fn test_instructor_self_enrollment_rejected() {
    let mut t = setup();
    let instructor = t.instructor.clone();
    t.env.mint(&t.token, &instructor, 100_000_000_000);
    register_and_approve_course(&mut t.env, &t.token, &t.admin, &instructor, "COURSE-SELF-ENROLL", 500_000_000);
    t.env.enroll(&instructor, &s("COURSE-SELF-ENROLL"));
}

#[test]
fn test_is_enrolled_check() {
    let mut t = setup();
    let student = t.env.generate();
    t.env.mint(&t.token, &student, 100_000_000_000);
    register_and_approve_course(&mut t.env, &t.token, &t.admin, &t.instructor, "COURSE-LASH-001", 300_000_000);
    let course_id = s("COURSE-LASH-001");
    assert!(!t.env.c.is_enrolled(&student, &course_id));
    t.env.enroll(&student, &course_id);
    assert!(t.env.c.is_enrolled(&student, &course_id));
}

// ============================================================
// COMPLETION & CERTIFICATES
// ============================================================

#[test]
fn test_full_lifecycle_enroll_complete_certify() {
    let mut t = setup();
    let student = t.env.generate();
    t.env.mint(&t.token, &student, 100_000_000_000);
    let course_id = s("COURSE-TAILORING-001");
    let course_title = s("Professional Tailoring");
    let cert_id = s("CERT-12345-TAILORING");
    register_and_approve_course(&mut t.env, &t.token, &t.admin, &t.instructor, "COURSE-TAILORING-001", 500_000_000);
    t.env.enroll(&student, &course_id);
    assert!(!t.env.c.has_completed(&student, &course_id));
    t.env.mark_completed(&t.admin, &student, &course_id, Some(s("evidence_hash")));
    assert!(t.env.c.has_completed(&student, &course_id));
    t.env.issue_certificate(&t.admin, &cert_id, &student, &course_id, &course_title, &s("ref"), None);
    assert!(t.env.verify_certificate(&cert_id));
    let cert = t.env.get_certificate(&cert_id);
    assert_eq!(cert.student, student);
    assert!(!cert.revoked);
    assert_eq!(cert.course_id, course_id);
    let enrollment = t.env.get_enrollment(&student, &student, &course_id).unwrap();
    assert!(enrollment.certificate_issued);
}

#[test]
#[should_panic(expected = "student has not completed this course")]
fn test_certificate_requires_completion() {
    let mut t = setup();
    let student = t.env.generate();
    t.env.mint(&t.token, &student, 100_000_000_000);
    register_and_approve_course(&mut t.env, &t.token, &t.admin, &t.instructor, "COURSE-NAILS-001", 400_000_000);
    t.env.enroll(&student, &s("COURSE-NAILS-001"));
    t.env.issue_certificate(
        &t.admin,
        &s("CERT-EARLY"),
        &student,
        &s("COURSE-NAILS-001"),
        &s("Nail Technology"),
        &s("ref"),
        None,
    );
}

fn completed_with_certificate(t: &mut Setup, course: &str, price: i128, cert: &str, evidence: &str, title: &str) -> String {
    let student = t.env.generate();
    t.env.mint(&t.token, &student, 100_000_000_000);
    register_and_approve_course(&mut t.env, &t.token, &t.admin, &t.instructor, course, price);
    t.env.enroll(&student, &s(course));
    t.env.mark_completed(&t.admin, &student, &s(course), Some(s(evidence)));
    t.env.issue_certificate(&t.admin, &s(cert), &student, &s(course), &s(title), &s("ref"), None);
    student
}

#[test]
fn test_revoke_certificate() {
    let mut t = setup();
    let cert_id = s("CERT-REVOKE-TEST");
    completed_with_certificate(&mut t, "COURSE-MAKEUP-001", 600_000_000, "CERT-REVOKE-TEST", "evidence_hash", "Makeup Artistry");
    assert!(t.env.verify_certificate(&cert_id));
    let reason = s("ACADEMIC_DISHONESTY");
    t.env.revoke_certificate(&t.admin, &cert_id, &reason);
    assert!(!t.env.verify_certificate(&cert_id));
    let cert = t.env.get_certificate(&cert_id);
    assert!(cert.revoked);
    assert_eq!(cert.revoked_by, Some(t.admin.clone()));
    assert!(cert.revoked_at_ledger.is_some());
    assert_eq!(cert.revocation_reason, Some(reason));
}

#[test]
fn test_revoke_certificate_metadata_persisted() {
    let mut t = setup();
    let cert_id = s("CERT-AUDIT-TEST");
    completed_with_certificate(&mut t, "COURSE-AUDIT-001", 500_000_000, "CERT-AUDIT-TEST", "proof", "Audit Course");
    let before = t.env.get_certificate(&cert_id);
    assert!(!before.revoked);
    assert!(before.revoked_by.is_none());
    assert!(before.revoked_at_ledger.is_none());
    assert!(before.revocation_reason.is_none());
    let ledger_before = t.env.sequence;
    t.env.revoke_certificate(&t.admin, &cert_id, &s("ISSUED_IN_ERROR"));
    let after = t.env.get_certificate(&cert_id);
    assert!(after.revoked);
    assert_eq!(after.revoked_by, Some(t.admin.clone()));
    assert!(after.revoked_at_ledger.unwrap() >= ledger_before);
    assert_eq!(after.revocation_reason, Some(s("ISSUED_IN_ERROR")));
}

// ============================================================
// PAUSE / UNPAUSE
// ============================================================

#[test]
fn test_pause_and_unpause_course() {
    let mut t = setup();
    let course_id = s("COURSE-BAKING-001");
    register_and_approve_course(&mut t.env, &t.token, &t.admin, &t.instructor, "COURSE-BAKING-001", 250_000_000);
    let instructor = t.instructor.clone();
    t.env.pause_course(&instructor, &course_id);
    assert_eq!(t.env.get_course(&course_id).status, CourseStatus::Paused);
    t.env.unpause_course(&t.admin, &course_id);
    assert_eq!(t.env.get_course(&course_id).status, CourseStatus::Active);
}

#[test]
fn test_update_platform_fee() {
    let mut t = setup();
    assert_eq!(t.env.c.get_platform_fee(), 20);
    t.env.update_default_fee(&t.admin, 25);
    assert_eq!(t.env.c.get_platform_fee(), 25);
}

#[test]
fn test_multiple_students_same_course() {
    let mut t = setup();
    register_and_approve_course(&mut t.env, &t.token, &t.admin, &t.instructor, "COURSE-HAIR-001", 200_000_000);
    let course_id = s("COURSE-HAIR-001");
    for _ in 0..5 {
        let st = t.env.generate();
        t.env.mint(&t.token, &st, 1_000_000_000);
        t.env.enroll(&st, &course_id);
    }
    let course = t.env.get_course(&course_id);
    assert_eq!(course.total_enrollments, 5);
    assert_eq!(course.total_earned, 5 * 200_000_000);
}

// ============================================================
// COMPLETION AUTHORIZATION
// ============================================================

#[test]
fn test_mark_completed_no_evidence_requires_student_auth() {
    let mut t = setup();
    let student = t.env.generate();
    t.env.mint(&t.token, &student, 1_000_000_000);
    register_and_approve_course(&mut t.env, &t.token, &t.admin, &t.instructor, "COURSE-AUTH-1", 100_000_000);
    let course_id = s("COURSE-AUTH-1");
    t.env.enroll(&student, &course_id);
    t.env.mark_completed(&t.admin, &student, &course_id, None);
    assert!(t.env.auths.contains(&t.admin));
    assert!(t.env.auths.contains(&student));
}

#[test]
fn test_mark_completed_with_evidence_does_not_require_student_auth() {
    let mut t = setup();
    let student = t.env.generate();
    t.env.mint(&t.token, &student, 1_000_000_000);
    register_and_approve_course(&mut t.env, &t.token, &t.admin, &t.instructor, "COURSE-AUTH-2", 100_000_000);
    let course_id = s("COURSE-AUTH-2");
    t.env.enroll(&student, &course_id);
    let hash = s("some_evidence_hash");
    t.env.mark_completed(&t.admin, &student, &course_id, Some(hash.clone()));
    assert!(t.env.auths.contains(&t.admin));
    assert!(!t.env.auths.contains(&student));
    let enrollment = t.env.get_enrollment(&student, &student, &course_id).unwrap();
    assert_eq!(enrollment.evidence_hash, Some(hash));
}

// ============================================================
// ARCHIVE
// ============================================================

#[test]
#[should_panic(expected = "course must be paused before archiving")]
fn test_archive_course_blocked_by_active_enrollment() {
    let mut t = setup();
    let student = t.env.generate();
    t.env.mint(&t.token, &student, 1_000_000_000);
    register_and_approve_course(&mut t.env, &t.token, &t.admin, &t.instructor, "COURSE-ARCHIVE-1", 100_000_000);
    let course_id = s("COURSE-ARCHIVE-1");
    t.env.enroll(&student, &course_id);
    t.env.archive_course(&t.admin, &t.sec_admin, &course_id, None);
}

#[test]
fn test_archive_course_with_refunds() {
    let mut t = setup();
    let student_a = t.env.generate();
    let student_b = t.env.generate();
    t.env.mint(&t.token, &student_a, 1_000_000_000);
    t.env.mint(&t.token, &student_b, 1_000_000_000);
    let price = 500_000_000;
    register_and_approve_course(&mut t.env, &t.token, &t.admin, &t.instructor, "COURSE-REFUND", price);
    let course_id = s("COURSE-REFUND");
    t.env.enroll(&student_a, &course_id);
    t.env.enroll(&student_b, &course_id);
    assert_eq!(t.env.balance(&t.token, &student_a), 500_000_000);
    assert_eq!(t.env.balance(&t.token, &student_b), 500_000_000);
    let platform_fee_total = price * 20 / 100 * 2;
    let instructor_fee_total = (price - (price * 20 / 100)) * 2;
    assert_eq!(t.env.balance(&t.token, &t.treasury), platform_fee_total);
    assert_eq!(t.env.balance(&t.token, &t.instructor), 0);
    assert_eq!(t.env.get_instructor_earnings(&t.instructor, &t.token), instructor_fee_total);

    t.env.pause_course(&t.admin, &course_id);
    t.env.archive_course(&t.admin, &t.sec_admin, &course_id, Some(vec![student_a.clone(), student_b.clone()]));

    assert_eq!(t.env.balance(&t.token, &student_a), 1_000_000_000);
    assert_eq!(t.env.balance(&t.token, &student_b), 1_000_000_000);
    assert_eq!(t.env.balance(&t.token, &t.treasury), 0);
    assert_eq!(t.env.balance(&t.token, &t.instructor), 0);
    assert_eq!(t.env.get_instructor_earnings(&t.instructor, &t.token), 0);
    let course = t.env.get_course(&course_id);
    assert_eq!(course.status, CourseStatus::Archived);
    assert_eq!(course.active_enrollments, 0);
    assert!(!t.env.c.is_enrolled(&student_a, &course_id));
    assert!(!t.env.c.is_enrolled(&student_b, &course_id));
}

#[test]
#[should_panic]
fn test_enroll_insufficient_funds_rollback() {
    let mut t = setup();
    let student = t.env.generate();
    let price = 500_000_000;
    register_and_approve_course(&mut t.env, &t.token, &t.admin, &t.instructor, "COURSE-ROLLBACK", price);
    let course_id = s("COURSE-ROLLBACK");
    t.env.mint(&t.token, &student, 150_000_000);
    t.env.enroll(&student, &course_id);
    assert_eq!(t.env.balance(&t.token, &t.treasury), 0);
    assert_eq!(t.env.balance(&t.token, &student), 150_000_000);
}

#[test]
fn test_treasury_update_delay() {
    let mut t = setup();
    let student_1 = t.env.generate();
    let student_2 = t.env.generate();
    t.env.mint(&t.token, &student_1, 1_000_000_000);
    t.env.mint(&t.token, &student_2, 1_000_000_000);
    let price = 500_000_000;
    register_and_approve_course(&mut t.env, &t.token, &t.admin, &t.instructor, "COURSE-TREASURY", price);
    let course_id = s("COURSE-TREASURY");
    let new_treasury = t.env.generate();
    t.env.update_treasury(&t.admin, &t.sec_admin, &new_treasury);
    t.env.enroll(&student_1, &course_id);
    let platform_fee = price * 20 / 100;
    assert_eq!(t.env.balance(&t.token, &t.treasury), platform_fee);
    assert_eq!(t.env.balance(&t.token, &new_treasury), 0);
    t.env.sequence += 100;
    t.env.enroll(&student_2, &course_id);
    assert_eq!(t.env.balance(&t.token, &t.treasury), platform_fee);
    assert_eq!(t.env.balance(&t.token, &new_treasury), platform_fee);
}

// ============================================================
// INPUT LENGTH VALIDATION
// ============================================================

#[test]
#[should_panic(expected = "course_id exceeds maximum length")]
fn test_register_course_id_too_long() {
    let mut t = setup();
    let long_id = "A".repeat(257);
    t.env.register_course(&t.instructor, &long_id, 50_000_000, &t.token, 0, None);
}

#[test]
fn test_register_course_id_at_max_length_succeeds() {
    let mut t = setup();
    let max_id = "A".repeat(256);
    t.env.register_course(&t.instructor, &max_id, 50_000_000, &t.token, 0, None);
    assert_eq!(t.env.get_course(&max_id).status, CourseStatus::Pending);
}

fn completed_enrollment(t: &mut Setup, course: &str) -> String {
    let student = t.env.generate();
    t.env.mint(&t.token, &student, 1_000_000_000);
    register_and_approve_course(&mut t.env, &t.token, &t.admin, &t.instructor, course, 100_000_000);
    t.env.enroll(&student, &s(course));
    t.env.mark_completed(&t.admin, &student, &s(course), Some(s("hash")));
    student
}

#[test]
#[should_panic(expected = "course_title exceeds maximum length")]
fn test_issue_certificate_title_too_long() {
    let mut t = setup();
    let student = completed_enrollment(&mut t, "COURSE-TITLE-LEN");
    let long_title = "T".repeat(513);
    t.env.issue_certificate(&t.admin, &s("CERT-TITLE-LEN"), &student, &s("COURSE-TITLE-LEN"), &long_title, &s("ref"), None);
}

#[test]
#[should_panic(expected = "certificate_id exceeds maximum length")]
fn test_issue_certificate_id_too_long() {
    let mut t = setup();
    let student = completed_enrollment(&mut t, "COURSE-CERT-ID-LEN");
    let long_cert_id = "C".repeat(257);
    t.env.issue_certificate(&t.admin, &long_cert_id, &student, &s("COURSE-CERT-ID-LEN"), &s("Valid Title"), &s("ref"), None);
}

// ============================================================
// ARCHIVE LIFECYCLE
// ============================================================

#[test]
#[should_panic(expected = "course must be paused before archiving")]
fn test_archive_active_course_rejected() {
    let mut t = setup();
    register_and_approve_course(&mut t.env, &t.token, &t.admin, &t.instructor, "COURSE-ARCHIVE-ACTIVE", 100_000_000);
    t.env.archive_course(&t.admin, &t.sec_admin, &s("COURSE-ARCHIVE-ACTIVE"), None);
}

#[test]
#[should_panic(expected = "course must be paused before archiving")]
fn test_archive_pending_course_rejected() {
    let mut t = setup();
    t.env.register_course(&t.instructor, &s("COURSE-ARCHIVE-PENDING"), 100_000_000, &t.token, 0, None);
    t.env.archive_course(&t.admin, &t.sec_admin, &s("COURSE-ARCHIVE-PENDING"), None);
}

#[test]
fn test_archive_paused_course_succeeds() {
    let mut t = setup();
    register_and_approve_course(&mut t.env, &t.token, &t.admin, &t.instructor, "COURSE-ARCHIVE-PAUSED", 100_000_000);
    let course_id = s("COURSE-ARCHIVE-PAUSED");
    t.env.pause_course(&t.admin, &course_id);
    t.env.archive_course(&t.admin, &t.sec_admin, &course_id, None);
    assert_eq!(t.env.get_course(&course_id).status, CourseStatus::Archived);
}

#[test]
#[should_panic(expected = "contract already initialized")]
fn test_init_cannot_be_called_twice() {
    let mut t = setup();
    t.env.init(&t.admin, &t.sec_admin, &t.treasury, 20, 50);
}

// ============================================================
// TOKEN WHITELIST
// ============================================================

#[test]
#[should_panic(expected = "course token is not approved")]
fn test_enroll_with_non_whitelisted_token_fails() {
    let mut t = setup();
    let evil_token = s("TOKEN-EVIL");
    let student = t.env.generate();
    t.env.mint(&evil_token, &student, 100_000_000_000);
    t.env.register_course(&t.instructor, &s("COURSE-EVIL-TOKEN"), 500_000_000, &evil_token, 0, None);
    t.env.approve_course(&t.admin, &s("COURSE-EVIL-TOKEN"));
    t.env.enroll(&student, &s("COURSE-EVIL-TOKEN"));
}

#[test]
fn test_enroll_succeeds_after_token_removed_from_whitelist_is_re_added() {
    let mut t = setup();
    register_and_approve_course(&mut t.env, &t.token, &t.admin, &t.instructor, "COURSE-WLIST", 200_000_000);
    let course_id = s("COURSE-WLIST");
    t.env.remove_approved_token(&t.admin, &t.token);
    t.env.add_approved_token(&t.admin, &t.token);
    let student = t.env.generate();
    t.env.mint(&t.token, &student, 1_000_000_000);
    t.env.enroll(&student, &course_id);
    assert!(t.env.c.is_enrolled(&student, &course_id));
}

// ============================================================
// CERTIFICATE ID COLLISION
// ============================================================

#[test]
#[should_panic(expected = "certificate ID already exists")]
fn test_certificate_id_collision_across_courses() {
    let mut t = setup();
    register_and_approve_course(&mut t.env, &t.token, &t.admin, &t.instructor, "COURSE-COLL-A", 300_000_000);
    register_and_approve_course(&mut t.env, &t.token, &t.admin, &t.instructor, "COURSE-COLL-B", 300_000_000);
    let course_a = s("COURSE-COLL-A");
    let course_b = s("COURSE-COLL-B");
    let cert_id = s("CERT-SHARED-ID");
    let student_a = t.env.generate();
    t.env.mint(&t.token, &student_a, 1_000_000_000);
    t.env.enroll(&student_a, &course_a);
    t.env.mark_completed(&t.admin, &student_a, &course_a, Some(s("ev_a")));
    t.env.issue_certificate(&t.admin, &cert_id, &student_a, &course_a, &s("Course A"), &s("ref_a"), None);
    let student_b = t.env.generate();
    t.env.mint(&t.token, &student_b, 1_000_000_000);
    t.env.enroll(&student_b, &course_b);
    t.env.mark_completed(&t.admin, &student_b, &course_b, Some(s("ev_b")));
    t.env.issue_certificate(&t.admin, &cert_id, &student_b, &course_b, &s("Course B"), &s("ref_b"), None);
}

// ============================================================
// TWO-STEP ADMIN TRANSFER
// ============================================================

#[test]
fn test_two_step_admin_transfer_success() {
    let mut t = setup();
    let new_admin = t.env.generate();
    let new_sec = t.env.generate();
    t.env.transfer_admin(&t.admin, &t.sec_admin, &new_admin, &new_sec);
    t.env.accept_admin(&new_admin, &new_sec);
    t.env.update_default_fee(&new_admin, 15);
    assert_eq!(t.env.c.get_platform_fee(), 15);
}

#[test]
#[should_panic(expected = "no pending admin")]
fn test_accept_admin_without_proposal_fails() {
    let mut t = setup();
    let random = t.env.generate();
    let new_sec = t.env.generate();
    t.env.accept_admin(&random, &new_sec);
}

#[test]
#[should_panic(expected = "callers are not the pending admins")]
fn test_accept_admin_wrong_address_fails() {
    let mut t = setup();
    let new_admin = t.env.generate();
    let wrong_addr = t.env.generate();
    let new_sec = t.env.generate();
    t.env.transfer_admin(&t.admin, &t.sec_admin, &new_admin, &new_sec);
    let new_sec = t.env.generate();
    t.env.accept_admin(&wrong_addr, &new_sec);
}

#[test]
#[should_panic(expected = "unauthorized: update_default_fee")]
fn test_old_admin_loses_access_after_transfer_completes() {
    let mut t = setup();
    let new_admin = t.env.generate();
    let new_sec = t.env.generate();
    t.env.transfer_admin(&t.admin, &t.sec_admin, &new_admin, &new_sec);
    t.env.accept_admin(&new_admin, &new_sec);
    t.env.update_default_fee(&t.admin, 10);
}

#[test]
fn test_admin_transferred_event_emitted_once_with_full_schema() {
    let mut t = setup();
    let new_admin = t.env.generate();
    let new_sec = t.env.generate();
    t.env.transfer_admin(&t.admin, &t.sec_admin, &new_admin, &new_sec);
    let ledger_before = t.env.sequence;
    t.env.accept_admin(&new_admin, &new_sec);
    let mut transfer_events = 0u32;
    for e in &t.env.events {
        if let Event::AdminTransferred { previous_admin, new_admin: new, ledger } = e {
            transfer_events += 1;
            assert_eq!(*previous_admin, t.admin);
            assert_eq!(*new, new_admin);
            assert!(*ledger >= ledger_before);
        }
    }
    assert_eq!(transfer_events, 1);
}

// ============================================================
// ENROLLMENT PERSISTENCE
// ============================================================

#[test]
fn test_enrollment_persists_after_long_ledger_advance() {
    let mut t = setup();
    let student = t.env.generate();
    t.env.mint(&t.token, &student, 1_000_000_000);
    register_and_approve_course(&mut t.env, &t.token, &t.admin, &t.instructor, "COURSE-TTL-001", 100_000_000);
    let course_id = s("COURSE-TTL-001");
    t.env.enroll(&student, &course_id);
    t.env.sequence += 500_000;
    let enrollment = t.env.get_enrollment(&student, &student, &course_id).unwrap();
    assert_eq!(enrollment.amount_paid, 100_000_000);
    assert!(t.env.c.is_enrolled(&student, &course_id));
}

#[test]
fn test_enrollment_ttl_extended_on_write() {
    let mut t = setup();
    let student = t.env.generate();
    t.env.mint(&t.token, &student, 1_000_000_000);
    register_and_approve_course(&mut t.env, &t.token, &t.admin, &t.instructor, "COURSE-TTL-002", 200_000_000);
    let course_id = s("COURSE-TTL-002");
    t.env.enroll(&student, &course_id);
    t.env.sequence += 5_000_000;
    t.env.mark_completed(&t.admin, &student, &course_id, Some(s("proof")));
    assert!(t.env.c.has_completed(&student, &course_id));
}

// ============================================================
// BATCH ENROLLMENT
// ============================================================

#[test]
fn test_batch_enroll_success() {
    let mut t = setup();
    let student = t.env.generate();
    t.env.mint(&t.token, &student, 10_000_000_000);
    register_and_approve_course(&mut t.env, &t.token, &t.admin, &t.instructor, "COURSE-BATCH-A", 100_000_000);
    register_and_approve_course(&mut t.env, &t.token, &t.admin, &t.instructor, "COURSE-BATCH-B", 200_000_000);
    register_and_approve_course(&mut t.env, &t.token, &t.admin, &t.instructor, "COURSE-BATCH-C", 300_000_000);
    t.env.batch_enroll(&student, vec![s("COURSE-BATCH-A"), s("COURSE-BATCH-B"), s("COURSE-BATCH-C")]);
    assert!(t.env.c.is_enrolled(&student, &s("COURSE-BATCH-A")));
    assert!(t.env.c.is_enrolled(&student, &s("COURSE-BATCH-B")));
    assert!(t.env.c.is_enrolled(&student, &s("COURSE-BATCH-C")));
}

#[test]
#[should_panic(expected = "course is not available for enrollment")]
fn test_batch_enroll_fails_on_invalid_course() {
    let mut t = setup();
    let student = t.env.generate();
    t.env.mint(&t.token, &student, 10_000_000_000);
    register_and_approve_course(&mut t.env, &t.token, &t.admin, &t.instructor, "COURSE-BATCH-OK", 100_000_000);
    t.env.register_course(&t.instructor, &s("COURSE-BATCH-BAD"), 200_000_000, &t.token, 0, None);
    t.env.batch_enroll(&student, vec![s("COURSE-BATCH-OK"), s("COURSE-BATCH-BAD")]);
    assert!(!t.env.c.is_enrolled(&student, &s("COURSE-BATCH-OK")));
}

#[test]
#[should_panic(expected = "duplicate course in batch")]
fn test_batch_enroll_rejects_duplicates() {
    let mut t = setup();
    let student = t.env.generate();
    t.env.mint(&t.token, &student, 10_000_000_000);
    register_and_approve_course(&mut t.env, &t.token, &t.admin, &t.instructor, "COURSE-BATCH-DUP", 100_000_000);
    t.env.batch_enroll(&student, vec![s("COURSE-BATCH-DUP"), s("COURSE-BATCH-DUP")]);
}

#[test]
fn test_batch_enroll_emits_event_for_each_enrollment() {
    let mut t = setup();
    let student = t.env.generate();
    t.env.mint(&t.token, &student, 10_000_000_000);
    let price_a: i128 = 100_000_000;
    let price_b: i128 = 200_000_000;
    register_and_approve_course(&mut t.env, &t.token, &t.admin, &t.instructor, "COURSE-EVENT-A", price_a);
    register_and_approve_course(&mut t.env, &t.token, &t.admin, &t.instructor, "COURSE-EVENT-B", price_b);
    t.env.batch_enroll(&student, vec![s("COURSE-EVENT-A"), s("COURSE-EVENT-B")]);
    let events = student_enrolled_events(&t.env);
    let mut event_a_found = false;
    let mut event_b_found = false;
    for (ev_student, ev_course, ev_amount, _, _, _) in &events {
        assert_eq!(*ev_student, student);
        if *ev_course == s("COURSE-EVENT-A") {
            assert_eq!(*ev_amount, price_a);
            event_a_found = true;
        } else if *ev_course == s("COURSE-EVENT-B") {
            assert_eq!(*ev_amount, price_b);
            event_b_found = true;
        }
    }
    assert_eq!(events.len(), 2);
    assert!(event_a_found);
    assert!(event_b_found);
}

// ============================================================
// AUTHORIZATION ERROR MESSAGES
// ============================================================

#[test]
#[should_panic(expected = "unauthorized: mark_completed")]
fn test_mark_completed_unauthorized_includes_operation() {
    let mut t = setup();
    let student = t.env.generate();
    t.env.mint(&t.token, &student, 100_000_000_000);
    register_and_approve_course(&mut t.env, &t.token, &t.admin, &t.instructor, "COURSE-COMPLETE-UNAUTH", 50_000_000);
    let course_id = s("COURSE-COMPLETE-UNAUTH");
    t.env.enroll(&student, &course_id);
    let instructor = t.instructor.clone();
    t.env.mark_completed(&instructor, &student, &course_id, None);
}

#[test]
#[should_panic(expected = "unauthorized: pause_platform")]
fn test_pause_platform_unauthorized_includes_operation() {
    let mut t = setup();
    let instructor = t.instructor.clone();
    t.env.pause_platform(&instructor);
}

#[test]
#[should_panic(expected = "unauthorized: add_approved_token")]
fn test_add_approved_token_unauthorized_includes_operation() {
    let mut t = setup();
    let new_token = t.env.generate();
    let instructor = t.instructor.clone();
    t.env.add_approved_token(&instructor, &new_token);
}

#[test]
#[should_panic(expected = "unauthorized: revoke_certificate")]
fn test_revoke_certificate_unauthorized_includes_operation() {
    let mut t = setup();
    let student = t.env.generate();
    t.env.mint(&t.token, &student, 100_000_000_000);
    register_and_approve_course(&mut t.env, &t.token, &t.admin, &t.instructor, "COURSE-REVOKE-UNAUTH", 50_000_000);
    let course_id = s("COURSE-REVOKE-UNAUTH");
    t.env.enroll(&student, &course_id);
    t.env.mark_completed(&t.admin, &student, &course_id, None);
    let cert_id = s("CERT-REVOKE-UNAUTH-001");
    t.env.issue_certificate(&t.admin, &cert_id, &student, &course_id, &s("Revoke Test Course"), &s("ref"), None);
    let instructor = t.instructor.clone();
    t.env.revoke_certificate(&instructor, &cert_id, &s("TEST_REASON"));
}

// ============================================================
// PULL-BASED INSTRUCTOR WITHDRAWALS
// ============================================================

#[test]
fn test_instructor_earnings_accumulate_and_withdraw() {
    let mut t = setup();
    let student = t.env.generate();
    t.env.mint(&t.token, &student, 10_000_000_000);
    let price: i128 = 1_000_000_000;
    register_and_approve_course(&mut t.env, &t.token, &t.admin, &t.instructor, "COURSE-EARN-001", price);
    t.env.enroll(&student, &s("COURSE-EARN-001"));
    let instructor_share = price * 80 / 100;
    assert_eq!(t.env.get_instructor_earnings(&t.instructor, &t.token), instructor_share);
    assert_eq!(t.env.balance(&t.token, &t.instructor), 0);
    let instructor = t.instructor.clone();
    t.env.withdraw_earnings(&instructor, &t.token.clone(), 0);
    assert_eq!(t.env.balance(&t.token, &t.instructor), instructor_share);
    assert_eq!(t.env.get_instructor_earnings(&t.instructor, &t.token), 0);
}

#[test]
fn test_multiple_enrollments_aggregate_earnings() {
    let mut t = setup();
    let price: i128 = 500_000_000;
    register_and_approve_course(&mut t.env, &t.token, &t.admin, &t.instructor, "COURSE-EARN-MULTI", price);
    for _ in 0..3 {
        let st = t.env.generate();
        t.env.mint(&t.token, &st, 1_000_000_000);
        t.env.enroll(&st, &s("COURSE-EARN-MULTI"));
    }
    let instructor_share_per = price * 80 / 100;
    assert_eq!(t.env.get_instructor_earnings(&t.instructor, &t.token), instructor_share_per * 3);
}

#[test]
#[should_panic(expected = "insufficient earnings balance")]
fn test_unauthorized_instructor_withdraw_fails() {
    let mut t = setup();
    let student = t.env.generate();
    t.env.mint(&t.token, &student, 1_000_000_000);
    register_and_approve_course(&mut t.env, &t.token, &t.admin, &t.instructor, "COURSE-EARN-AUTH", 500_000_000);
    t.env.enroll(&student, &s("COURSE-EARN-AUTH"));
    let impostor = t.env.generate();
    let token = t.token.clone();
    t.env.withdraw_earnings(&impostor, &token, 100);
}

#[test]
fn test_double_withdrawal_prevented() {
    let mut t = setup();
    let student = t.env.generate();
    t.env.mint(&t.token, &student, 1_000_000_000);
    register_and_approve_course(&mut t.env, &t.token, &t.admin, &t.instructor, "COURSE-EARN-DBL", 500_000_000);
    t.env.enroll(&student, &s("COURSE-EARN-DBL"));
    let instructor = t.instructor.clone();
    let token = t.token.clone();
    t.env.withdraw_earnings(&instructor, &token, 0);
    let balance_after_first = t.env.balance(&token, &instructor);
    t.env.withdraw_earnings(&instructor, &token, 0);
    assert_eq!(t.env.balance(&token, &instructor), balance_after_first);
}

#[test]
fn test_zero_balance_withdrawal_is_safe() {
    let mut t = setup();
    let instructor = t.instructor.clone();
    let token = t.token.clone();
    assert_eq!(t.env.get_instructor_earnings(&instructor, &token), 0);
    t.env.withdraw_earnings(&instructor, &token, 0);
    assert_eq!(t.env.get_instructor_earnings(&instructor, &token), 0);
}

// ============================================================
// REGISTRATION LIMITS
// ============================================================

#[test]
#[should_panic(expected = "instructor has reached the maximum number of course registrations")]
fn test_registration_limit_enforced() {
    let mut t = setup();
    t.env.update_max_courses_limit(&t.admin, 2);
    t.env.register_course(&t.instructor, &s("COURSE-LIMIT-001"), 1_000_000, &t.token, 0, None);
    t.env.register_course(&t.instructor, &s("COURSE-LIMIT-002"), 1_000_000, &t.token, 0, None);
    t.env.register_course(&t.instructor, &s("COURSE-LIMIT-003"), 1_000_000, &t.token, 0, None);
}

#[test]
fn test_admin_can_raise_limit() {
    let mut t = setup();
    t.env.update_max_courses_limit(&t.admin, 1);
    t.env.register_course(&t.instructor, &s("COURSE-RAISE-001"), 1_000_000, &t.token, 0, None);
    t.env.update_max_courses_limit(&t.admin, 5);
    t.env.register_course(&t.instructor, &s("COURSE-RAISE-002"), 1_000_000, &t.token, 0, None);
    assert_eq!(t.env.c.get_instructor_course_count(&t.instructor), 2);
}

#[test]
fn test_different_instructors_have_independent_limits() {
    let mut t = setup();
    t.env.update_max_courses_limit(&t.admin, 1);
    let instructor_a = t.env.generate();
    let instructor_b = t.env.generate();
    t.env.register_course(&instructor_a, &s("COURSE-IND-A1"), 1_000_000, &t.token, 0, None);
    t.env.register_course(&instructor_b, &s("COURSE-IND-B1"), 1_000_000, &t.token, 0, None);
    assert_eq!(t.env.c.get_instructor_course_count(&instructor_a), 1);
    assert_eq!(t.env.c.get_instructor_course_count(&instructor_b), 1);
}

#[test]
fn test_get_max_courses_limit_returns_configured_value() {
    let mut t = setup();
    assert_eq!(t.env.c.get_max_courses_limit(), 50);
    t.env.update_max_courses_limit(&t.admin, 10);
    assert_eq!(t.env.c.get_max_courses_limit(), 10);
}

#[test]
fn test_course_count_increments_correctly() {
    let mut t = setup();
    assert_eq!(t.env.c.get_instructor_course_count(&t.instructor), 0);
    t.env.register_course(&t.instructor, &s("COURSE-COUNT-001"), 1_000_000, &t.token, 0, None);
    assert_eq!(t.env.c.get_instructor_course_count(&t.instructor), 1);
    t.env.register_course(&t.instructor, &s("COURSE-COUNT-002"), 1_000_000, &t.token, 0, None);
    assert_eq!(t.env.c.get_instructor_course_count(&t.instructor), 2);
}

// ============================================================
// CERTIFICATE VERIFICATION
// ============================================================

#[test]
fn test_verify_certificate_returns_true_for_valid_cert() {
    let mut t = setup();
    completed_with_certificate(&mut t, "COURSE-VERIFY-001", 100_000_000, "CERT-VERIFY-001", "proof", "Test Course");
    assert!(t.env.verify_certificate(&s("CERT-VERIFY-001")));
}

#[test]
fn test_verify_certificate_returns_false_for_revoked_cert() {
    let mut t = setup();
    let cert_id = s("CERT-VERIFY-002");
    completed_with_certificate(&mut t, "COURSE-VERIFY-002", 100_000_000, "CERT-VERIFY-002", "proof", "Test Course");
    assert!(t.env.verify_certificate(&cert_id));
    t.env.revoke_certificate(&t.admin, &cert_id, &s("ACADEMIC_DISHONESTY"));
    assert!(!t.env.verify_certificate(&cert_id));
}

#[test]
fn test_verify_certificate_returns_false_for_nonexistent_cert() {
    let t = setup();
    assert!(!t.env.verify_certificate(&s("CERT-DOES-NOT-EXIST")));
}

#[test]
fn test_verify_certificate_false_does_not_mutate_state() {
    let mut t = setup();
    let cert_id = s("CERT-VERIFY-003");
    completed_with_certificate(&mut t, "COURSE-VERIFY-003", 100_000_000, "CERT-VERIFY-003", "proof", "Test Course");
    t.env.revoke_certificate(&t.admin, &cert_id, &s("ISSUED_IN_ERROR"));
    assert!(!t.env.verify_certificate(&cert_id));
    assert!(!t.env.verify_certificate(&cert_id));
    let cert = t.env.get_certificate(&cert_id);
    assert!(cert.revoked);
    assert_eq!(cert.revoked_by, Some(t.admin.clone()));
}

// ============================================================
// CAPACITY
// ============================================================

#[test]
fn test_enroll_at_capacity_succeeds() {
    let mut t = setup();
    t.env.register_course(&t.instructor, &s("COURSE-CAP-EXACT"), 100_000_000, &t.token, 0, Some(1));
    t.env.approve_course(&t.admin, &s("COURSE-CAP-EXACT"));
    let student = t.env.generate();
    t.env.mint(&t.token, &student, 1_000_000_000);
    t.env.enroll(&student, &s("COURSE-CAP-EXACT"));
    assert_eq!(t.env.get_course(&s("COURSE-CAP-EXACT")).total_enrollments, 1);
}

#[test]
#[should_panic(expected = "course has reached maximum enrollment capacity")]
fn test_enroll_beyond_capacity_rejected() {
    let mut t = setup();
    t.env.register_course(&t.instructor, &s("COURSE-CAP-FULL"), 100_000_000, &t.token, 0, Some(1));
    t.env.approve_course(&t.admin, &s("COURSE-CAP-FULL"));
    let student_a = t.env.generate();
    let student_b = t.env.generate();
    t.env.mint(&t.token, &student_a, 1_000_000_000);
    t.env.mint(&t.token, &student_b, 1_000_000_000);
    let course_id = s("COURSE-CAP-FULL");
    t.env.enroll(&student_a, &course_id);
    t.env.enroll(&student_b, &course_id);
}

#[test]
fn test_enroll_unlimited_capacity() {
    let mut t = setup();
    t.env.register_course(&t.instructor, &s("COURSE-CAP-NONE"), 100_000_000, &t.token, 0, None);
    t.env.approve_course(&t.admin, &s("COURSE-CAP-NONE"));
    let course_id = s("COURSE-CAP-NONE");
    for _ in 0..5 {
        let st = t.env.generate();
        t.env.mint(&t.token, &st, 1_000_000_000);
        t.env.enroll(&st, &course_id);
    }
    assert_eq!(t.env.get_course(&course_id).total_enrollments, 5);
}

#[test]
#[should_panic(expected = "course has reached maximum enrollment capacity")]
fn test_batch_enroll_respects_capacity() {
    let mut t = setup();
    t.env.register_course(&t.instructor, &s("COURSE-BATCH-CAP-OK"), 100_000_000, &t.token, 0, None);
    t.env.approve_course(&t.admin, &s("COURSE-BATCH-CAP-OK"));
    t.env.register_course(&t.instructor, &s("COURSE-BATCH-CAP-FULL"), 100_000_000, &t.token, 0, Some(0));
    t.env.approve_course(&t.admin, &s("COURSE-BATCH-CAP-FULL"));
    let student = t.env.generate();
    t.env.mint(&t.token, &student, 1_000_000_000);
    t.env.batch_enroll(&student, vec![s("COURSE-BATCH-CAP-OK"), s("COURSE-BATCH-CAP-FULL")]);
}

#[test]
#[should_panic(expected = "total earned overflow")]
fn test_enroll_total_earned_overflow() {
    let mut t = setup();
    let student = t.env.generate();
    t.env.mint(&t.token, &student, 100_000_000_000);
    register_and_approve_course(&mut t.env, &t.token, &t.admin, &t.instructor, "COURSE-OVERFLOW-2", 1);
    let course_id = s("COURSE-OVERFLOW-2");
    // Bring the course's running total to the top of the range in the
    // saved state, and load it back.
    let mut parts = t.env.c.to_parts();
    for course in parts.courses.iter_mut() {
        if course.id == course_id {
            course.total_earned = i128::MAX;
        }
    }
    t.env.c = HamplardContract::from_parts(parts).unwrap();
    t.env.enroll(&student, &course_id);
}

// ============================================================
// APPROVAL TIME LOCK
// ============================================================

#[test]
#[should_panic(expected = "course review period has not elapsed")]
fn test_course_approval_time_lock_premature_panics() {
    let mut t = setup();
    t.env.update_min_review_delay(&t.admin, 10);
    let course_id = s("COURSE-DELAYED-1");
    t.env.register_course(&t.instructor, &course_id, 100_000_000, &t.token, 0, None);
    t.env.approve_course(&t.admin, &course_id);
}

#[test]
fn test_course_approval_time_lock_success() {
    let mut t = setup();
    t.env.update_min_review_delay(&t.admin, 10);
    let course_id = s("COURSE-DELAYED-2");
    t.env.register_course(&t.instructor, &course_id, 100_000_000, &t.token, 0, None);
    t.env.sequence += 10;
    t.env.approve_course(&t.admin, &course_id);
    assert_eq!(t.env.get_course(&course_id).status, CourseStatus::Active);
}

#[test]
#[should_panic]
fn test_register_course_invalid_token() {
    let mut t = setup();
    let random_eoa = t.env.generate();
    t.env.register_course(&t.instructor, &s("COURSE-INVALID-TOKEN"), 500_000_000, &random_eoa, 0, None);
}

// ============================================================
// GET ENROLLMENT AUTHORIZATION
// ============================================================

#[test]
fn test_get_enrollment_authorized_access() {
    let mut t = setup();
    let student = t.env.generate();
    t.env.mint(&t.token, &student, 1_000_000_000);
    register_and_approve_course(&mut t.env, &t.token, &t.admin, &t.instructor, "COURSE-AUTH-GET", 100_000_000);
    let course_id = s("COURSE-AUTH-GET");
    t.env.enroll(&student, &course_id);
    let e1 = t.env.get_enrollment(&student, &student, &course_id).unwrap();
    assert_eq!(e1.amount_paid, 100_000_000);
    let instructor = t.instructor.clone();
    let e2 = t.env.get_enrollment(&instructor, &student, &course_id).unwrap();
    assert_eq!(e2.amount_paid, 100_000_000);
    let admin = t.admin.clone();
    let e3 = t.env.get_enrollment(&admin, &student, &course_id).unwrap();
    assert_eq!(e3.amount_paid, 100_000_000);
}

#[test]
#[should_panic(expected = "unauthorized")]
fn test_get_enrollment_unauthorized_access() {
    let mut t = setup();
    let student = t.env.generate();
    let random_user = t.env.generate();
    t.env.mint(&t.token, &student, 1_000_000_000);
    register_and_approve_course(&mut t.env, &t.token, &t.admin, &t.instructor, "COURSE-AUTH-GET-UNAUTH", 100_000_000);
    let course_id = s("COURSE-AUTH-GET-UNAUTH");
    t.env.enroll(&student, &course_id);
    t.env.get_enrollment(&random_user, &student, &course_id);
}

// ============================================================
// ARCHIVE THEN RE-REGISTER
// ============================================================

#[test]
#[should_panic(expected = "course already registered")]
fn test_archive_then_reregister_fails() {
    let mut t = setup();
    register_and_approve_course(&mut t.env, &t.token, &t.admin, &t.instructor, "COURSE-ARCHIVE-REREG", 100_000_000);
    let course_id = s("COURSE-ARCHIVE-REREG");
    t.env.pause_course(&t.admin, &course_id);
    t.env.archive_course(&t.admin, &t.sec_admin, &course_id, None);
    assert_eq!(t.env.get_course(&course_id).status, CourseStatus::Archived);
    t.env.register_course(&t.instructor, &course_id, 100_000_000, &t.token, 0, None);
}

#[test]
#[should_panic(expected = "already marked as completed")]
fn test_concurrent_completion() {
    let mut t = setup();
    let student = t.env.generate();
    t.env.mint(&t.token, &student, 1_000_000_000);
    register_and_approve_course(&mut t.env, &t.token, &t.admin, &t.instructor, "COURSE-CONCURRENCY", 100_000_000);
    let course_id = s("COURSE-CONCURRENCY");
    t.env.enroll(&student, &course_id);
    t.env.mark_completed(&t.admin, &student, &course_id, Some(s("ev")));
    t.env.mark_completed(&t.admin, &student, &course_id, Some(s("ev2")));
}

#[test]
fn test_course_created_at_ledger_is_accurate() {
    let mut t = setup();
    t.env.sequence = 12345;
    let course_id = s("COURSE-LEDGER");
    t.env.register_course(&t.instructor, &course_id, 100_000_000, &t.token, 0, None);
    assert_eq!(t.env.get_course(&course_id).created_at_ledger, 12345);
}

#[test]
fn test_course_certificate_id_collision_verification() {
    let mut t = setup();
    let student = t.env.generate();
    t.env.mint(&t.token, &student, 1_000_000_000);
    let matching_id = s("MATCHING-ID-123");
    t.env.register_course(&t.instructor, &matching_id, 100_000_000, &t.token, 0, None);
    t.env.approve_course(&t.admin, &matching_id);
    t.env.enroll(&student, &matching_id);
    t.env.mark_completed(&t.admin, &student, &matching_id, Some(s("proof")));
    t.env.issue_certificate(&t.admin, &matching_id, &student, &matching_id, &s("Test Course"), &s("enroll-ref"), None);
    let course = t.env.get_course(&matching_id);
    assert_eq!(course.id, matching_id);
    assert_eq!(course.instructor, t.instructor);
    let cert = t.env.get_certificate(&matching_id);
    assert_eq!(cert.id, matching_id);
    assert_eq!(cert.student, student);
    assert!(t.env.verify_certificate(&matching_id));
}

#[test]
#[should_panic(expected = "proposed admin addresses are identical to current admin addresses")]
fn test_transfer_admin_rejects_identical_addresses() {
    let mut t = setup();
    t.env.transfer_admin(&t.admin, &t.sec_admin, &t.admin, &t.sec_admin);
}

#[test]
#[should_panic(expected = "admin and secondary_admin must be distinct addresses")]
fn test_transfer_admin_rejects_same_new_admin_and_secondary() {
    let mut t = setup();
    let new_admin = t.env.generate();
    t.env.transfer_admin(&t.admin, &t.sec_admin, &new_admin, &new_admin);
}

#[test]
fn test_certificate_expiry_behavior() {
    let mut t = setup();
    let student = t.env.generate();
    t.env.mint(&t.token, &student, 1_000_000_000);
    let course_id = s("COURSE-EXPIRY");
    let cert_id = s("CERT-EXPIRY-123");
    register_and_approve_course(&mut t.env, &t.token, &t.admin, &t.instructor, "COURSE-EXPIRY", 100_000_000);
    t.env.enroll(&student, &course_id);
    t.env.mark_completed(&t.admin, &student, &course_id, None);
    t.env.issue_certificate(&t.admin, &cert_id, &student, &course_id, &s("Expiry Course"), &s("ref"), Some(1000));
    assert!(t.env.verify_certificate(&cert_id));
    t.env.sequence = 999;
    assert!(t.env.verify_certificate(&cert_id));
    t.env.sequence = 1000;
    assert!(!t.env.verify_certificate(&cert_id));
}

#[test]
fn test_freeze_instructor_lifecycle() {
    let mut t = setup();
    let instructor = t.instructor.clone();
    assert!(!t.env.c.is_instructor_frozen(&instructor));
    t.env.freeze_instructor(&t.admin, &instructor);
    assert!(t.env.c.is_instructor_frozen(&instructor));
    t.env.unfreeze_instructor(&t.admin, &instructor);
    assert!(!t.env.c.is_instructor_frozen(&instructor));
}

#[test]
#[should_panic(expected = "instructor is frozen")]
fn test_frozen_instructor_cannot_register_course() {
    let mut t = setup();
    let instructor = t.instructor.clone();
    t.env.freeze_instructor(&t.admin, &instructor);
    t.env.register_course(&instructor, &s("FROZEN-COURSE"), 100_000_000, &t.token, 0, None);
}

// ============================================================
// REFUND REQUESTS
// ============================================================

#[test]
fn test_refund_lifecycle() {
    let mut t = setup();
    let student = t.env.generate();
    t.env.mint(&t.token, &student, 100_000_000_000);
    register_and_approve_course(&mut t.env, &t.token, &t.admin, &t.instructor, "COURSE-REFUND", 1_000_000_000);
    let course_id = s("COURSE-REFUND");
    t.env.update_refund_window(&t.admin, 10);
    assert_eq!(t.env.c.get_refund_window(), 10);
    t.env.enroll(&student, &course_id);
    assert!(t.env.c.is_enrolled(&student, &course_id));
    t.env.request_refund(&student, &course_id);
    let request = t.env.get_refund_request(&student, &course_id).unwrap();
    assert_eq!(request.status, RefundStatus::Pending);
    let initial_balance = t.env.balance(&t.token, &student);
    t.env.process_refund(&t.admin, &student, &course_id, true);
    let final_balance = t.env.balance(&t.token, &student);
    assert_eq!(final_balance - initial_balance, 1_000_000_000);
    assert!(!t.env.c.is_enrolled(&student, &course_id));
    let approved = t.env.get_refund_request(&student, &course_id).unwrap();
    assert_eq!(approved.status, RefundStatus::Approved);
}

#[test]
#[should_panic(expected = "refund window has expired")]
fn test_refund_request_outside_window_fails() {
    let mut t = setup();
    let student = t.env.generate();
    t.env.mint(&t.token, &student, 100_000_000_000);
    register_and_approve_course(&mut t.env, &t.token, &t.admin, &t.instructor, "COURSE-REFUND-EXP", 1_000_000_000);
    let course_id = s("COURSE-REFUND-EXP");
    t.env.update_refund_window(&t.admin, 5);
    t.env.enroll(&student, &course_id);
    t.env.sequence += 6;
    t.env.request_refund(&student, &course_id);
}

#[test]
fn test_refund_rejection() {
    let mut t = setup();
    let student = t.env.generate();
    t.env.mint(&t.token, &student, 100_000_000_000);
    register_and_approve_course(&mut t.env, &t.token, &t.admin, &t.instructor, "COURSE-REJECT", 1_000_000_000);
    let course_id = s("COURSE-REJECT");
    t.env.enroll(&student, &course_id);
    t.env.request_refund(&student, &course_id);
    t.env.process_refund(&t.admin, &student, &course_id, false);
    let request = t.env.get_refund_request(&student, &course_id).unwrap();
    assert_eq!(request.status, RefundStatus::Rejected);
    assert!(t.env.c.is_enrolled(&student, &course_id));
}

#[test]
#[should_panic(expected = "instructor is frozen")]
fn test_frozen_instructor_enrollment_blocked() {
    let mut t = setup();
    let student = t.env.generate();
    t.env.mint(&t.token, &student, 1_000_000_000);
    register_and_approve_course(&mut t.env, &t.token, &t.admin, &t.instructor, "PRE-FREEZE-COURSE", 100_000_000);
    let instructor = t.instructor.clone();
    t.env.freeze_instructor(&t.admin, &instructor);
    t.env.enroll(&student, &s("PRE-FREEZE-COURSE"));
}
