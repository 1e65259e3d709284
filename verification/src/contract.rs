//! The platform's state and its operations. Every operation is proved to
//! answer as the model in `model` says: on success the new state, the value,
//! the authorizations, token movements and notices it states; on a refusal
//! its error, with the state left as it was.

use vstd::prelude::*;
use crate::fees::split_fee;
use crate::model::{self, answers, Model, MAX_ID_LEN, MAX_TITLE_LEN, TREASURY_DELAY};
use crate::persist::{
    certificate_key, certificate_val, count_key, count_val, counts_match, course_key, course_val,
    earning_key, earning_val, enrollment_key, enrollment_val, lemma_open_count, lists,
    load_certificates, load_counts, load_courses, load_earnings, load_enrollments, load_refunds,
    load_set, loaded, open_count, parts_valid, refund_key, refund_val, PlatformParts,
};
use crate::table::{Dup, Table, dup_vec};
use crate::types::{
    AdminOp, CallContext, Certificate, Course, CourseStatus, Enrollment, Error, Event, Outcome,
    RefundRequest, RefundStatus, Transfer, TreasuryUpdate,
};

verus! {

/// The course marketplace: its settings, courses, enrollments, certificates,
/// instructor earnings and refund requests.
pub struct HamplardContract {
    admin: Option<String>,
    secondary_admin: Option<String>,
    treasury: Option<String>,
    default_fee: u32,
    max_courses: u32,
    paused: bool,
    pending_treasury: Option<TreasuryUpdate>,
    pending_admin: Option<String>,
    pending_secondary_admin: Option<String>,
    min_review_delay: u32,
    refund_window: u32,
    courses: Table<String, Course>,
    enrollments: Table<(String, String), Enrollment>,
    certificates: Table<String, Certificate>,
    earnings: Table<(String, String), i128>,
    course_counts: Table<String, u32>,
    approved_tokens: Table<String, ()>,
    frozen: Table<String, ()>,
    catalog: Vec<String>,
    refunds: Table<(String, String), RefundRequest>,
}

impl View for HamplardContract {
    type V = Model;

    closed spec fn view(&self) -> Model {
        Model {
            admin: self.admin,
            secondary_admin: self.secondary_admin,
            treasury: self.treasury,
            default_fee: self.default_fee,
            max_courses: self.max_courses,
            paused: self.paused,
            pending_treasury: self.pending_treasury,
            pending_admin: self.pending_admin,
            pending_secondary_admin: self.pending_secondary_admin,
            min_review_delay: self.min_review_delay,
            refund_window: self.refund_window,
            courses: self.courses@,
            enrollments: self.enrollments@,
            certificates: self.certificates@,
            earnings: self.earnings@,
            course_counts: self.course_counts@,
            approved_tokens: self.approved_tokens@.dom(),
            frozen: self.frozen@.dom(),
            catalog: self.catalog@,
            refunds: self.refunds@,
        }
    }
}

fn one(a: &String) -> (v: Vec<String>)
    ensures
        v@ == seq![*a],
{
    let mut v: Vec<String> = Vec::new();
    v.push(a.clone());
    v
}

fn two(a: &String, b: &String) -> (v: Vec<String>)
    ensures
        v@ == seq![*a, *b],
{
    let mut v: Vec<String> = Vec::new();
    v.push(a.clone());
    v.push(b.clone());
    v
}

fn outcome(auths: Vec<String>) -> (o: Outcome<()>)
    ensures
        o.value == (),
        o.auths@ == auths@,
        o.transfers@ == Seq::<Transfer>::empty(),
        o.events@ == Seq::<Event>::empty(),
{
    Outcome { value: (), auths, transfers: Vec::new(), events: Vec::new() }
}

fn outcome_with(auths: Vec<String>, ev: Event) -> (o: Outcome<()>)
    ensures
        o.value == (),
        o.auths@ == auths@,
        o.transfers@ == Seq::<Transfer>::empty(),
        o.events@ == seq![ev],
{
    let mut events: Vec<Event> = Vec::new();
    events.push(ev);
    Outcome { value: (), auths, transfers: Vec::new(), events }
}

/// True when both accounts are set and differ, or one is unset.
fn distinct_or_unset(x: &Option<String>, y: &Option<String>) -> (r: bool)
    ensures
        r == model::distinct_pair(*x, *y),
{
    match (x, y) {
        (Some(a), Some(b)) => *a != *b,
        _ => true,
    }
}

fn text_len(s: &String) -> (n: usize)
    ensures
        n == model::byte_len(*s),
{
    s.as_str().as_bytes().len()
}

impl HamplardContract {
    /// Well-formedness: the tables are consistent and the model's invariant holds.
    pub closed spec fn wf(&self) -> bool {
        &&& self.courses.wf()
        &&& self.enrollments.wf()
        &&& self.certificates.wf()
        &&& self.earnings.wf()
        &&& self.course_counts.wf()
        &&& self.approved_tokens.wf()
        &&& self.frozen.wf()
        &&& self.refunds.wf()
        &&& model::model_inv(self@)
    }

    /// A well-formed platform obeys the model's invariant; every operation
    /// keeps the platform well formed.
    pub proof fn law_invariant_holds(&self)
        requires
            self.wf(),
        ensures
            model::model_inv(self@),
    {
    }

    /// A platform not yet initialized: no admin, no treasury, a default fee
    /// of 20 percent and 50 courses per instructor.
    pub fn new() -> (c: Self)
        ensures
            c.wf(),
            c@ == model::initial_model(),
    {
        let c = HamplardContract {
            admin: None,
            secondary_admin: None,
            treasury: None,
            default_fee: 20,
            max_courses: 50,
            paused: false,
            pending_treasury: None,
            pending_admin: None,
            pending_secondary_admin: None,
            min_review_delay: 0,
            refund_window: 0,
            courses: Table::new(),
            enrollments: Table::new(),
            certificates: Table::new(),
            earnings: Table::new(),
            course_counts: Table::new(),
            approved_tokens: Table::new(),
            frozen: Table::new(),
            catalog: Vec::new(),
            refunds: Table::new(),
        };
        assert(c@ =~= model::initial_model());
        c
    }

    fn snapshot(&self) -> (r: Self)
        requires
            self.wf(),
        ensures
            r.wf(),
            r@ == self@,
    {
        let r = HamplardContract {
            admin: self.admin.dup(),
            secondary_admin: self.secondary_admin.dup(),
            treasury: self.treasury.dup(),
            default_fee: self.default_fee,
            max_courses: self.max_courses,
            paused: self.paused,
            pending_treasury: self.pending_treasury.dup(),
            pending_admin: self.pending_admin.dup(),
            pending_secondary_admin: self.pending_secondary_admin.dup(),
            min_review_delay: self.min_review_delay,
            refund_window: self.refund_window,
            courses: self.courses.dup(),
            enrollments: self.enrollments.dup(),
            certificates: self.certificates.dup(),
            earnings: self.earnings.dup(),
            course_counts: self.course_counts.dup(),
            approved_tokens: self.approved_tokens.dup(),
            frozen: self.frozen.dup(),
            catalog: dup_vec(&self.catalog),
            refunds: self.refunds.dup(),
        };
        assert(r@ =~= self@);
        r
    }

    // --------------------------------------------------------------
    // Internal reads
    // --------------------------------------------------------------

    fn is_admin(&self, caller: &String) -> (r: bool)
        ensures
            r == model::is_admin(self@, *caller),
    {
        match &self.admin {
            Some(a) => *a == *caller,
            None => false,
        }
    }

    fn check_admin(&self, caller: &String, op: AdminOp) -> (r: Result<(), Error>)
        ensures
            r is Ok <==> model::admin_check(self@, *caller, op) is None,
            r matches Err(e) ==> model::admin_check(self@, *caller, op) == Some(e),
    {
        if self.is_admin(caller) {
            Ok(())
        } else {
            Err(Error::NotAdmin(op))
        }
    }

    fn check_multi_admin(&self, a1: &String, a2: &String) -> (r: Result<(), Error>)
        ensures
            r is Ok <==> model::multi_admin_check(self@, *a1, *a2) is None,
            r matches Err(e) ==> model::multi_admin_check(self@, *a1, *a2) == Some(e),
    {
        match (&self.admin, &self.secondary_admin) {
            (Some(a), Some(s)) => {
                if (*a1 == *a && *a2 == *s) || (*a1 == *s && *a2 == *a) {
                    Ok(())
                } else {
                    Err(Error::NotBothAdmins)
                }
            },
            _ => Err(Error::NotInitialized),
        }
    }

    fn earnings_of(&self, instructor: &String, token: &String) -> (r: i128)
        requires
            self.wf(),
        ensures
            r == model::earnings_of(self@, *instructor, *token),
    {
        let key = (instructor.clone(), token.clone());
        match self.earnings.get(&key) {
            Some(v) => *v,
            None => 0,
        }
    }

    fn set_earnings(&mut self, instructor: &String, token: &String, v: i128)
        requires
            old(self).wf(),
            v >= 0,
        ensures
            final(self).wf(),
            final(self)@ == model::set_earnings(old(self)@, *instructor, *token, v),
    {
        let key = (instructor.clone(), token.clone());
        if v == 0 {
            self.earnings.remove(&key);
        } else {
            self.earnings.insert(key, v);
        }
        assert(self@ =~= model::set_earnings(old(self)@, *instructor, *token, v));
    }

    // --------------------------------------------------------------
    // Read-only queries
    // --------------------------------------------------------------

    /// The default platform fee, in percent.
    pub fn get_platform_fee(&self) -> (r: u32)
        ensures
            r == self@.default_fee,
    {
        self.default_fee
    }

    /// The most courses one instructor may register.
    pub fn get_max_courses_limit(&self) -> (r: u32)
        ensures
            r == self@.max_courses,
    {
        self.max_courses
    }

    /// Ledgers after enrollment during which a refund may be requested.
    pub fn get_refund_window(&self) -> (r: u32)
        ensures
            r == self@.refund_window,
    {
        self.refund_window
    }

    /// Courses the instructor has registered.
    pub fn get_instructor_course_count(&self, instructor: &String) -> (r: u32)
        requires
            self.wf(),
        ensures
            r == model::count_of(self@, *instructor),
    {
        match self.course_counts.get(instructor) {
            Some(n) => *n,
            None => 0,
        }
    }

    /// The instructor's withdrawable earnings in the token.
    pub fn get_instructor_earnings(&self, instructor: &String, token: &String) -> (r: i128)
        requires
            self.wf(),
        ensures
            r == model::earnings_of(self@, *instructor, *token),
    {
        self.earnings_of(instructor, token)
    }

    pub fn is_instructor_frozen(&self, instructor: &String) -> (r: bool)
        requires
            self.wf(),
        ensures
            r == self@.frozen.contains(instructor@),
    {
        self.frozen.contains_key(instructor)
    }

    pub fn is_token_approved(&self, token: &String) -> (r: bool)
        requires
            self.wf(),
        ensures
            r == self@.approved_tokens.contains(token@),
    {
        self.approved_tokens.contains_key(token)
    }

    pub fn get_course(&self, course_id: &String) -> (r: Result<Course, Error>)
        requires
            self.wf(),
        ensures
            r is Ok <==> self@.courses.contains_key(course_id@),
            r matches Ok(c) ==> c == self@.courses[course_id@],
            r matches Err(e) ==> e == Error::CourseNotFound,
    {
        match self.courses.get(course_id) {
            Some(c) => Ok(c.dup()),
            None => Err(Error::CourseNotFound),
        }
    }

    pub fn get_certificate(&self, certificate_id: &String) -> (r: Result<Certificate, Error>)
        requires
            self.wf(),
        ensures
            r is Ok <==> self@.certificates.contains_key(certificate_id@),
            r matches Ok(c) ==> c == self@.certificates[certificate_id@],
            r matches Err(e) ==> e == Error::CertificateNotFound,
    {
        match self.certificates.get(certificate_id) {
            Some(c) => Ok(c.dup()),
            None => Err(Error::CertificateNotFound),
        }
    }

    pub fn is_enrolled(&self, student: &String, course_id: &String) -> (r: bool)
        requires
            self.wf(),
        ensures
            r == self@.enrollments.contains_key((student@, course_id@)),
    {
        let key = (student.clone(), course_id.clone());
        self.enrollments.contains_key(&key)
    }

    pub fn has_completed(&self, student: &String, course_id: &String) -> (r: bool)
        requires
            self.wf(),
        ensures
            r == model::has_completed(self@, *student, *course_id),
    {
        let key = (student.clone(), course_id.clone());
        match self.enrollments.get(&key) {
            Some(e) => e.completed,
            None => false,
        }
    }

    /// True when the certificate exists, is not revoked and has not expired
    /// at the ledger of the call.
    pub fn verify_certificate(&self, ctx: &CallContext, certificate_id: &String) -> (r: bool)
        requires
            self.wf(),
        ensures
            r == model::certificate_valid(self@, ctx.sequence, *certificate_id),
    {
        match self.certificates.get(certificate_id) {
            Some(cert) => {
                if cert.revoked {
                    return false;
                }
                match cert.expires_at_ledger {
                    Some(expiry) => ctx.sequence < expiry,
                    None => true,
                }
            },
            None => false,
        }
    }

    pub fn get_refund_request(&self, student: &String, course_id: &String) -> (r: Option<
        RefundRequest,
    >)
        requires
            self.wf(),
        ensures
            r is Some <==> self@.refunds.contains_key((student@, course_id@)),
            r matches Some(q) ==> q == self@.refunds[(student@, course_id@)],
    {
        let key = (student.clone(), course_id.clone());
        match self.refunds.get(&key) {
            Some(q) => Some(q.dup()),
            None => None,
        }
    }

    /// A page of the catalog: at most `limit` course identifiers, from
    /// position `offset` on, in registration order.
    pub fn list_courses(&self, offset: u32, limit: u32) -> (r: Vec<String>)
        ensures
            r@ == model::list_courses(self@, offset, limit),
    {
        let total: usize = self.catalog.len();
        let start: usize = if (offset as usize) < total {
            offset as usize
        } else {
            total
        };
        let room: usize = total - start;
        let end: usize = if (limit as usize) < room {
            start + (limit as usize)
        } else {
            total
        };
        let mut page: Vec<String> = Vec::new();
        let mut i: usize = start;
        while i < end
            invariant
                start <= i <= end <= total,
                total == self.catalog@.len(),
                page@ == self.catalog@.subrange(start as int, i as int),
            decreases end - i,
        {
            page.push(self.catalog[i].clone());
            assert(page@ =~= self.catalog@.subrange(start as int, i + 1));
            i = i + 1;
        }
        page
    }

    // --------------------------------------------------------------
    // Setup and governance
    // --------------------------------------------------------------

    /// Sets the admins, the treasury, the default fee and the per-instructor
    /// course limit. Called once.
    pub fn init(
        &mut self,
        ctx: &CallContext,
        admin: &String,
        secondary_admin: &String,
        treasury: &String,
        default_fee_pct: u32,
        max_courses_per_instructor: u32,
    ) -> (r: Result<Outcome<()>, Error>)
        requires
            old(self).wf(),
        ensures
            final(self).wf(),
            answers(
                model::init(
                    old(self)@,
                    *ctx,
                    *admin,
                    *secondary_admin,
                    *treasury,
                    default_fee_pct,
                    max_courses_per_instructor,
                ),
                old(self)@,
                final(self)@,
                r,
            ),
    {
        if self.admin.is_some() {
            return Err(Error::AlreadyInitialized);
        }
        if default_fee_pct > 100 {
            return Err(Error::FeeTooHigh);
        }
        if *treasury == ctx.contract {
            return Err(Error::TreasuryIsContract);
        }
        if *admin == *treasury {
            return Err(Error::AdminIsTreasury);
        }
        if *secondary_admin == *treasury {
            return Err(Error::SecondaryAdminIsTreasury);
        }
        if *admin == *secondary_admin {
            return Err(Error::AdminsNotDistinct);
        }
        self.admin = Some(admin.clone());
        self.secondary_admin = Some(secondary_admin.clone());
        self.treasury = Some(treasury.clone());
        self.paused = false;
        self.default_fee = default_fee_pct;
        self.max_courses = max_courses_per_instructor;
        proof {
            assert(self@ =~= Model {
                admin: Some(*admin),
                secondary_admin: Some(*secondary_admin),
                treasury: Some(*treasury),
                paused: false,
                default_fee: default_fee_pct,
                max_courses: max_courses_per_instructor,
                ..old(self)@
            });
        }
        Ok(
            outcome_with(
                one(admin),
                Event::PlatformInitialized {
                    admin: admin.clone(),
                    secondary_admin: secondary_admin.clone(),
                    treasury: treasury.clone(),
                    default_fee: default_fee_pct,
                    ledger: ctx.sequence,
                },
            ),
        )
    }

    pub fn pause_platform(&mut self, ctx: &CallContext, admin: &String) -> (r: Result<Outcome<()>, Error>)
        requires
            old(self).wf(),
        ensures
            final(self).wf(),
            answers(model::pause_platform(old(self)@, *ctx, *admin), old(self)@, final(self)@, r),
    {
        self.check_admin(admin, AdminOp::PausePlatform)?;
        self.paused = true;
        proof {
            assert(self@ =~= Model { paused: true, ..old(self)@ });
        }
        Ok(outcome_with(one(admin), Event::PlatformPaused { admin: admin.clone(), ledger: ctx.sequence }))
    }

    pub fn unpause_platform(&mut self, ctx: &CallContext, admin: &String) -> (r: Result<Outcome<()>, Error>)
        requires
            old(self).wf(),
        ensures
            final(self).wf(),
            answers(model::unpause_platform(old(self)@, *ctx, *admin), old(self)@, final(self)@, r),
    {
        self.check_admin(admin, AdminOp::UnpausePlatform)?;
        self.paused = false;
        proof {
            assert(self@ =~= Model { paused: false, ..old(self)@ });
        }
        Ok(outcome_with(one(admin), Event::PlatformUnpaused { admin: admin.clone(), ledger: ctx.sequence }))
    }

    pub fn update_default_fee(&mut self, ctx: &CallContext, admin: &String, new_fee_pct: u32) -> (r: Result<
        Outcome<()>,
        Error,
    >)
        requires
            old(self).wf(),
        ensures
            final(self).wf(),
            answers(
                model::update_default_fee(old(self)@, *ctx, *admin, new_fee_pct),
                old(self)@,
                final(self)@,
                r,
            ),
    {
        self.check_admin(admin, AdminOp::UpdateDefaultFee)?;
        if new_fee_pct > 100 {
            return Err(Error::FeeTooHigh);
        }
        self.default_fee = new_fee_pct;
        proof {
            assert(self@ =~= Model { default_fee: new_fee_pct, ..old(self)@ });
        }
        Ok(
            outcome_with(
                one(admin),
                Event::DefaultFeeUpdated {
                    admin: admin.clone(),
                    fee_percent: new_fee_pct,
                    ledger: ctx.sequence,
                },
            ),
        )
    }

    /// Adds a token to the list of tokens that courses may be paid in.
    pub fn add_approved_token(&mut self, ctx: &CallContext, admin: &String, token: &String) -> (r: Result<
        Outcome<()>,
        Error,
    >)
        requires
            old(self).wf(),
        ensures
            final(self).wf(),
            answers(
                model::add_approved_token(old(self)@, *ctx, *admin, *token),
                old(self)@,
                final(self)@,
                r,
            ),
    {
        self.check_admin(admin, AdminOp::AddApprovedToken)?;
        self.approved_tokens.insert(token.clone(), ());
        proof {
            assert(self.approved_tokens@.dom() =~= old(self).approved_tokens@.dom().insert(token@));
            assert(self@ =~= Model {
                approved_tokens: old(self)@.approved_tokens.insert(token@),
                ..old(self)@
            });
        }
        Ok(
            outcome_with(
                one(admin),
                Event::TokenWhitelisted { admin: admin.clone(), token: token.clone(), ledger: ctx.sequence },
            ),
        )
    }

    pub fn remove_approved_token(&mut self, ctx: &CallContext, admin: &String, token: &String) -> (r: Result<
        Outcome<()>,
        Error,
    >)
        requires
            old(self).wf(),
        ensures
            final(self).wf(),
            answers(
                model::remove_approved_token(old(self)@, *ctx, *admin, *token),
                old(self)@,
                final(self)@,
                r,
            ),
    {
        self.check_admin(admin, AdminOp::RemoveApprovedToken)?;
        self.approved_tokens.remove(token);
        proof {
            assert(self.approved_tokens@.dom() =~= old(self).approved_tokens@.dom().remove(token@));
            assert(self@ =~= Model {
                approved_tokens: old(self)@.approved_tokens.remove(token@),
                ..old(self)@
            });
        }
        Ok(
            outcome_with(
                one(admin),
                Event::TokenRemovedFromWhitelist { admin: admin.clone(), token: token.clone(), ledger: ctx.sequence },
            ),
        )
    }

    pub fn update_max_courses_limit(&mut self, admin: &String, new_max: u32) -> (r: Result<
        Outcome<()>,
        Error,
    >)
        requires
            old(self).wf(),
        ensures
            final(self).wf(),
            answers(
                model::update_max_courses_limit(old(self)@, *admin, new_max),
                old(self)@,
                final(self)@,
                r,
            ),
    {
        self.check_admin(admin, AdminOp::UpdateMaxCoursesLimit)?;
        self.max_courses = new_max;
        proof {
            assert(self@ =~= Model { max_courses: new_max, ..old(self)@ });
        }
        Ok(outcome(one(admin)))
    }

    /// Sets how many ledgers must pass between a course's registration and
    /// its approval.
    pub fn update_min_review_delay(&mut self, admin: &String, delay: u32) -> (r: Result<
        Outcome<()>,
        Error,
    >)
        requires
            old(self).wf(),
        ensures
            final(self).wf(),
            answers(
                model::update_min_review_delay(old(self)@, *admin, delay),
                old(self)@,
                final(self)@,
                r,
            ),
    {
        self.check_admin(admin, AdminOp::UpdateMinReviewDelay)?;
        self.min_review_delay = delay;
        proof {
            assert(self@ =~= Model { min_review_delay: delay, ..old(self)@ });
        }
        Ok(outcome(one(admin)))
    }

    /// Sets how many ledgers after enrolling a student may ask for a refund.
    pub fn update_refund_window(&mut self, admin: &String, window: u32) -> (r: Result<
        Outcome<()>,
        Error,
    >)
        requires
            old(self).wf(),
        ensures
            final(self).wf(),
            answers(
                model::update_refund_window(old(self)@, *admin, window),
                old(self)@,
                final(self)@,
                r,
            ),
    {
        self.check_admin(admin, AdminOp::UpdateRefundWindow)?;
        self.refund_window = window;
        proof {
            assert(self@ =~= Model { refund_window: window, ..old(self)@ });
        }
        Ok(outcome(one(admin)))
    }

    pub fn freeze_instructor(&mut self, admin: &String, instructor: &String) -> (r: Result<
        Outcome<()>,
        Error,
    >)
        requires
            old(self).wf(),
        ensures
            final(self).wf(),
            answers(
                model::freeze_instructor(old(self)@, *admin, *instructor),
                old(self)@,
                final(self)@,
                r,
            ),
    {
        self.check_admin(admin, AdminOp::FreezeInstructor)?;
        self.frozen.insert(instructor.clone(), ());
        proof {
            assert(self.frozen@.dom() =~= old(self).frozen@.dom().insert(instructor@));
            assert(self@ =~= Model { frozen: old(self)@.frozen.insert(instructor@), ..old(self)@ });
        }
        Ok(outcome_with(one(admin), Event::InstructorFrozen { instructor: instructor.clone() }))
    }

    pub fn unfreeze_instructor(&mut self, admin: &String, instructor: &String) -> (r: Result<
        Outcome<()>,
        Error,
    >)
        requires
            old(self).wf(),
        ensures
            final(self).wf(),
            answers(
                model::unfreeze_instructor(old(self)@, *admin, *instructor),
                old(self)@,
                final(self)@,
                r,
            ),
    {
        self.check_admin(admin, AdminOp::UnfreezeInstructor)?;
        self.frozen.remove(instructor);
        proof {
            assert(self.frozen@.dom() =~= old(self).frozen@.dom().remove(instructor@));
            assert(self@ =~= Model { frozen: old(self)@.frozen.remove(instructor@), ..old(self)@ });
        }
        Ok(outcome_with(one(admin), Event::InstructorUnfrozen { instructor: instructor.clone() }))
    }

    /// Moves tokens held by the platform to a destination (emergency sweep).
    pub fn withdraw_tokens(
        &self,
        ctx: &CallContext,
        admin: &String,
        token: &String,
        amount: i128,
        destination: &String,
    ) -> (r: Result<Outcome<()>, Error>)
        requires
            self.wf(),
        ensures
            answers(
                model::withdraw_tokens(self@, *ctx, *admin, *token, amount, *destination),
                self@,
                self@,
                r,
            ),
    {
        self.check_admin(admin, AdminOp::WithdrawTokens)?;
        let mut transfers: Vec<Transfer> = Vec::new();
        transfers.push(
            Transfer {
                token: token.clone(),
                from: ctx.contract.clone(),
                to: destination.clone(),
                amount,
            },
        );
        let mut events: Vec<Event> = Vec::new();
        events.push(
            Event::TokensWithdrawn {
                admin: admin.clone(),
                token: token.clone(),
                amount,
                destination: destination.clone(),
                ledger: ctx.sequence,
            },
        );
        Ok(Outcome { value: (), auths: one(admin), transfers, events })
    }

    /// First step of the admin handover: both admins propose a new pair.
    pub fn transfer_admin(
        &mut self,
        ctx: &CallContext,
        admin1: &String,
        admin2: &String,
        new_admin: &String,
        new_secondary_admin: &String,
    ) -> (r: Result<Outcome<()>, Error>)
        requires
            old(self).wf(),
        ensures
            final(self).wf(),
            answers(
                model::transfer_admin(
                    old(self)@,
                    *ctx,
                    *admin1,
                    *admin2,
                    *new_admin,
                    *new_secondary_admin,
                ),
                old(self)@,
                final(self)@,
                r,
            ),
    {
        self.check_multi_admin(admin1, admin2)?;
        let same = match (&self.admin, &self.secondary_admin) {
            (Some(a), Some(s)) => *new_admin == *a && *new_secondary_admin == *s,
            _ => false,
        };
        if same {
            return Err(Error::SameAdmins);
        }
        if *new_admin == *new_secondary_admin {
            return Err(Error::AdminsNotDistinct);
        }
        self.pending_admin = Some(new_admin.clone());
        self.pending_secondary_admin = Some(new_secondary_admin.clone());
        proof {
            assert(self@ =~= Model {
                pending_admin: Some(*new_admin),
                pending_secondary_admin: Some(*new_secondary_admin),
                ..old(self)@
            });
        }
        Ok(
            outcome_with(
                two(admin1, admin2),
                Event::AdminTransferProposed {
                    admin1: admin1.clone(),
                    admin2: admin2.clone(),
                    new_admin: new_admin.clone(),
                    new_secondary_admin: new_secondary_admin.clone(),
                    ledger: ctx.sequence,
                },
            ),
        )
    }

    /// Second step of the admin handover: the proposed pair accepts.
    pub fn accept_admin(
        &mut self,
        ctx: &CallContext,
        new_admin: &String,
        new_secondary_admin: &String,
    ) -> (r: Result<Outcome<()>, Error>)
        requires
            old(self).wf(),
        ensures
            final(self).wf(),
            answers(
                model::accept_admin(old(self)@, *ctx, *new_admin, *new_secondary_admin),
                old(self)@,
                final(self)@,
                r,
            ),
    {
        let matches = match (&self.pending_admin, &self.pending_secondary_admin) {
            (None, _) => {
                return Err(Error::NoPendingAdmin);
            },
            (Some(_), None) => {
                return Err(Error::NoPendingSecondaryAdmin);
            },
            (Some(p), Some(ps)) => *p == *new_admin && *ps == *new_secondary_admin,
        };
        if !matches {
            return Err(Error::NotPendingAdmins);
        }
        let previous = match &self.admin {
            None => {
                return Err(Error::AdminNotSet);
            },
            Some(a) => a.clone(),
        };
        self.admin = Some(new_admin.clone());
        self.secondary_admin = Some(new_secondary_admin.clone());
        self.pending_admin = None;
        self.pending_secondary_admin = None;
        proof {
            assert(self@ =~= Model {
                admin: Some(*new_admin),
                secondary_admin: Some(*new_secondary_admin),
                pending_admin: None,
                pending_secondary_admin: None,
                ..old(self)@
            });
        }
        Ok(
            outcome_with(
                two(new_admin, new_secondary_admin),
                Event::AdminTransferred {
                    previous_admin: previous,
                    new_admin: new_admin.clone(),
                    ledger: ctx.sequence,
                },
            ),
        )
    }

    /// Schedules a new treasury, effective 100 ledgers later.
    pub fn update_treasury(
        &mut self,
        ctx: &CallContext,
        admin1: &String,
        admin2: &String,
        new_treasury: &String,
    ) -> (r: Result<Outcome<()>, Error>)
        requires
            old(self).wf(),
        ensures
            final(self).wf(),
            answers(
                model::update_treasury(old(self)@, *ctx, *admin1, *admin2, *new_treasury),
                old(self)@,
                final(self)@,
                r,
            ),
    {
        self.check_multi_admin(admin1, admin2)?;
        if *new_treasury == ctx.contract {
            return Err(Error::TreasuryIsContract);
        }
        let is_admin = match &self.admin {
            Some(a) => *new_treasury == *a,
            None => false,
        };
        if is_admin {
            return Err(Error::TreasuryIsAdmin);
        }
        let is_secondary = match &self.secondary_admin {
            Some(a) => *new_treasury == *a,
            None => false,
        };
        if is_secondary {
            return Err(Error::TreasuryIsSecondaryAdmin);
        }
        if ctx.sequence > u32::MAX - TREASURY_DELAY {
            return Err(Error::LedgerOverflow);
        }
        let effective_ledger = ctx.sequence + TREASURY_DELAY;
        self.pending_treasury = Some(
            TreasuryUpdate { address: new_treasury.clone(), effective_ledger },
        );
        proof {
            assert(self@ =~= Model {
                pending_treasury: Some(
                    TreasuryUpdate { address: *new_treasury, effective_ledger },
                ),
                ..old(self)@
            });
        }
        Ok(
            outcome_with(
                two(admin1, admin2),
                Event::TreasuryUpdated {
                    admin1: admin1.clone(),
                    admin2: admin2.clone(),
                    new_treasury: new_treasury.clone(),
                    effective_ledger,
                    ledger: ctx.sequence,
                },
            ),
        )
    }

    // --------------------------------------------------------------
    // Courses
    // --------------------------------------------------------------

    /// An instructor registers a course; it starts Pending. A fee of 0 asks
    /// for the platform default.
    pub fn register_course(
        &mut self,
        ctx: &CallContext,
        instructor: &String,
        course_id: &String,
        price: i128,
        token: &String,
        platform_fee_pct: u32,
        max_capacity: Option<u32>,
    ) -> (r: Result<Outcome<String>, Error>)
        requires
            old(self).wf(),
        ensures
            final(self).wf(),
            answers(
                model::register_course(
                    old(self)@,
                    *ctx,
                    *instructor,
                    *course_id,
                    price,
                    *token,
                    platform_fee_pct,
                    max_capacity,
                ),
                old(self)@,
                final(self)@,
                r,
            ),
    {
        if self.frozen.contains_key(instructor) {
            return Err(Error::InstructorFrozen);
        }
        if text_len(course_id) > MAX_ID_LEN as usize {
            return Err(Error::CourseIdTooLong);
        }
        if price < 0 {
            return Err(Error::NegativePrice);
        }
        if self.courses.contains_key(course_id) {
            return Err(Error::CourseAlreadyRegistered);
        }
        let count = self.get_instructor_course_count(instructor);
        if count >= self.max_courses {
            return Err(Error::CourseLimitReached);
        }
        let fee = if platform_fee_pct == 0 {
            self.default_fee
        } else {
            if platform_fee_pct > 100 {
                return Err(Error::FeeTooHigh);
            }
            if platform_fee_pct < self.default_fee {
                return Err(Error::FeeBelowMinimum);
            }
            platform_fee_pct
        };
        if !self.approved_tokens.contains_key(token) {
            return Err(Error::TokenNotApproved);
        }
        let course = Course {
            id: course_id.clone(),
            instructor: instructor.clone(),
            price,
            platform_fee_percent: fee,
            token: token.clone(),
            total_enrollments: 0,
            active_enrollments: 0,
            total_earned: 0,
            status: CourseStatus::Pending,
            created_at_ledger: ctx.sequence,
            max_capacity,
        };
        let ghost expected = Model {
            courses: old(self)@.courses.insert(course_id@, course),
            catalog: old(self)@.catalog.push(*course_id),
            course_counts: old(self)@.course_counts.insert(instructor@, (count + 1) as u32),
            ..old(self)@
        };
        self.courses.insert(course_id.clone(), course);
        self.catalog.push(course_id.clone());
        self.course_counts.insert(instructor.clone(), count + 1);
        proof {
            assert(self@ =~= expected);
            let m = self@;
            assert forall|k: (Seq<char>, Seq<char>)| #[trigger] m.enrollments.contains_key(k) implies
                m.courses.contains_key(k.1) by {
                assert(old(self)@.courses.contains_key(k.1));
            }
            assert forall|k: Seq<char>| #[trigger] m.courses.contains_key(k) implies
                model::course_ok(k, m.courses[k]) by {
                if k != course_id@ {
                    assert(old(self)@.courses.contains_key(k));
                }
            }
            assert(model::uncompleted(m.enrollments, course_id@) =~= Set::empty()) by {
                assert forall|k: (Seq<char>, Seq<char>)| !#[trigger] model::uncompleted(
                    m.enrollments,
                    course_id@,
                ).contains(k) by {
                    if model::uncompleted(m.enrollments, course_id@).contains(k) {
                        assert(m.enrollments.contains_key(k));
                        assert(old(self)@.courses.contains_key(k.1));
                    }
                }
            }
            assert forall|k: Seq<char>| #[trigger] m.courses.contains_key(k) implies m.courses[k].active_enrollments
                == model::uncompleted(m.enrollments, k).len() by {
                if k != course_id@ {
                    assert(old(self)@.courses.contains_key(k));
                }
            }
        }
        let mut events: Vec<Event> = Vec::new();
        events.push(
            Event::CourseRegistered {
                instructor: instructor.clone(),
                course_id: course_id.clone(),
                price,
                token: token.clone(),
                fee_percent: fee,
                ledger: ctx.sequence,
            },
        );
        Ok(Outcome { value: course_id.clone(), auths: one(instructor), transfers: Vec::new(), events })
    }

    /// An admin approves a Pending course once the review delay has passed.
    pub fn approve_course(&mut self, ctx: &CallContext, admin: &String, course_id: &String) -> (r:
        Result<Outcome<()>, Error>)
        requires
            old(self).wf(),
        ensures
            final(self).wf(),
            answers(
                model::approve_course(old(self)@, *ctx, *admin, *course_id),
                old(self)@,
                final(self)@,
                r,
            ),
    {
        self.check_admin(admin, AdminOp::ApproveCourse)?;
        let mut c = match self.courses.get(course_id) {
            Some(c) => c.dup(),
            None => {
                return Err(Error::CourseNotFound);
            },
        };
        if c.status != CourseStatus::Pending {
            return Err(Error::CourseNotPending);
        }
        if (ctx.sequence as u64) < (c.created_at_ledger as u64) + (self.min_review_delay as u64) {
            return Err(Error::ReviewPeriodNotElapsed);
        }
        let ghost c0 = c;
        c.status = CourseStatus::Active;
        assert(c == model::with_status(c0, CourseStatus::Active));
        self.courses.insert(course_id.clone(), c);
        proof {
            assert(self@ =~= Model {
                courses: old(self)@.courses.insert(course_id@, model::with_status(c0, CourseStatus::Active)),
                ..old(self)@
            });
            let m = self@;
            assert forall|k: Seq<char>| #[trigger] m.courses.contains_key(k) implies
                model::course_ok(k, m.courses[k]) by {
                assert(old(self)@.courses.contains_key(k));
            }
        }
        Ok(
            outcome_with(
                one(admin),
                Event::CourseApproved {
                    admin: admin.clone(),
                    course_id: course_id.clone(),
                    ledger: ctx.sequence,
                },
            ),
        )
    }

    fn toggle_course(
        &mut self,
        caller: &String,
        course_id: &String,
        from: CourseStatus,
        to: CourseStatus,
        wrong_status: Error,
        ev: Event,
    ) -> (r: Result<Outcome<()>, Error>)
        requires
            old(self).wf(),
            to != CourseStatus::Archived,
        ensures
            final(self).wf(),
            answers(
                model::toggle_course(old(self)@, *caller, *course_id, from, to, wrong_status, ev),
                old(self)@,
                final(self)@,
                r,
            ),
    {
        let mut c = match self.courses.get(course_id) {
            Some(c) => c.dup(),
            None => {
                return Err(Error::CourseNotFound);
            },
        };
        if !self.is_admin(caller) && *caller != c.instructor {
            return Err(Error::Unauthorized);
        }
        if c.status != from {
            return Err(wrong_status);
        }
        let ghost c0 = c;
        c.status = to;
        assert(c == model::with_status(c0, to));
        self.courses.insert(course_id.clone(), c);
        proof {
            assert(self@ =~= Model {
                courses: old(self)@.courses.insert(course_id@, model::with_status(c0, to)),
                ..old(self)@
            });
            let m = self@;
            assert forall|k: Seq<char>| #[trigger] m.courses.contains_key(k) implies
                model::course_ok(k, m.courses[k]) && m.courses[k].active_enrollments
                    == model::uncompleted(m.enrollments, k).len() by {
                assert(old(self)@.courses.contains_key(k));
            }
        }
        Ok(outcome_with(one(caller), ev))
    }

    /// The instructor or an admin closes an Active course to new enrollments.
    pub fn pause_course(&mut self, ctx: &CallContext, caller: &String, course_id: &String) -> (r: Result<
        Outcome<()>,
        Error,
    >)
        requires
            old(self).wf(),
        ensures
            final(self).wf(),
            answers(
                model::pause_course(old(self)@, *ctx, *caller, *course_id),
                old(self)@,
                final(self)@,
                r,
            ),
    {
        self.toggle_course(
            caller,
            course_id,
            CourseStatus::Active,
            CourseStatus::Paused,
            Error::CourseNotActive,
            Event::CoursePaused {
                caller: caller.clone(),
                course_id: course_id.clone(),
                ledger: ctx.sequence,
            },
        )
    }

    /// The instructor or an admin reopens a Paused course.
    pub fn unpause_course(&mut self, ctx: &CallContext, caller: &String, course_id: &String) -> (r: Result<
        Outcome<()>,
        Error,
    >)
        requires
            old(self).wf(),
        ensures
            final(self).wf(),
            answers(
                model::unpause_course(old(self)@, *ctx, *caller, *course_id),
                old(self)@,
                final(self)@,
                r,
            ),
    {
        self.toggle_course(
            caller,
            course_id,
            CourseStatus::Paused,
            CourseStatus::Active,
            Error::CourseNotPaused,
            Event::CourseUnpaused {
                caller: caller.clone(),
                course_id: course_id.clone(),
                ledger: ctx.sequence,
            },
        )
    }

    // --------------------------------------------------------------
    // Enrollment and payment
    // --------------------------------------------------------------

    fn validate_enrollment(&self, student: &String, course_id: &String) -> (r: Result<(), Error>)
        requires
            self.wf(),
        ensures
            r is Ok <==> model::enrollment_check(self@, *student, *course_id) is None,
            r matches Err(e) ==> model::enrollment_check(self@, *student, *course_id) == Some(e),
    {
        if self.paused {
            return Err(Error::PlatformPaused);
        }
        let c = match self.courses.get(course_id) {
            Some(c) => c,
            None => {
                return Err(Error::CourseNotFound);
            },
        };
        if self.frozen.contains_key(&c.instructor) {
            return Err(Error::InstructorFrozen);
        }
        if *student == c.instructor {
            return Err(Error::SelfEnrollment);
        }
        if c.status != CourseStatus::Active {
            return Err(Error::CourseNotAvailable);
        }
        let key = (student.clone(), course_id.clone());
        if self.enrollments.contains_key(&key) {
            return Err(Error::AlreadyEnrolled);
        }
        match c.max_capacity {
            Some(cap) => {
                if c.total_enrollments >= cap {
                    return Err(Error::CapacityReached);
                }
            },
            None => {},
        }
        if !self.approved_tokens.contains_key(&c.token) {
            return Err(Error::TokenNotApproved);
        }
        Ok(())
    }

    fn enroll_internal(&mut self, ctx: &CallContext, student: &String, course_id: &String) -> (r:
        Result<(Vec<Transfer>, Event), Error>)
        requires
            old(self).wf(),
        ensures
            final(self).wf(),
            match r {
                Ok((ts, ev)) => model::enroll_step(old(self)@, *ctx, *student, *course_id) == Ok::<
                    (Model, Seq<Transfer>, Event),
                    Error,
                >((final(self)@, ts@, ev)),
                Err(e) => model::enroll_step(old(self)@, *ctx, *student, *course_id) == Err::<
                    (Model, Seq<Transfer>, Event),
                    Error,
                >(e) && final(self)@ == old(self)@,
            },
    {
        self.validate_enrollment(student, course_id)?;
        let c = match self.courses.get(course_id) {
            Some(c) => c.dup(),
            None => {
                return Err(Error::CourseNotFound);
            },
        };
        proof {
            assert(model::course_ok(course_id@, c));
            crate::fees::lemma_fee_split_conserves(c.price, c.platform_fee_percent);
        }
        let (platform, instructor_part) = split_fee(c.price, c.platform_fee_percent)?;
        let (treasury, apply_pending) = match &self.treasury {
            None => {
                return Err(Error::TreasuryNotSet);
            },
            Some(t) => match &self.pending_treasury {
                Some(p) => {
                    if ctx.sequence >= p.effective_ledger {
                        (p.address.clone(), true)
                    } else {
                        (t.clone(), false)
                    }
                },
                None => (t.clone(), false),
            },
        };
        let bal = self.earnings_of(&c.instructor, &c.token);
        let credit = c.price > 0 && instructor_part > 0;
        let new_bal = if credit {
            match bal.checked_add(instructor_part) {
                None => {
                    return Err(Error::EarningsOverflow);
                },
                Some(v) => v,
            }
        } else {
            bal
        };
        let total = match c.total_enrollments.checked_add(1) {
            None => {
                return Err(Error::EnrollmentCountOverflow);
            },
            Some(v) => v,
        };
        let active = match c.active_enrollments.checked_add(1) {
            None => {
                return Err(Error::ActiveCountOverflow);
            },
            Some(v) => v,
        };
        let earned = match c.total_earned.checked_add(c.price) {
            None => {
                return Err(Error::TotalEarnedOverflow);
            },
            Some(v) => v,
        };
        let ghost m0 = old(self)@;
        if apply_pending {
            self.treasury = Some(treasury.clone());
            self.pending_treasury = None;
        }
        let ghost m1 = self@;
        proof {
            assert(model::current_treasury(m0, *ctx) == Some((m1, treasury)));
        }
        if credit {
            self.set_earnings(&c.instructor, &c.token, new_bal);
        }
        let ghost m2 = self@;
        let mut transfers: Vec<Transfer> = Vec::new();
        if c.price > 0 {
            transfers.push(
                Transfer {
                    token: c.token.clone(),
                    from: student.clone(),
                    to: ctx.contract.clone(),
                    amount: c.price,
                },
            );
            if platform > 0 {
                transfers.push(
                    Transfer {
                        token: c.token.clone(),
                        from: ctx.contract.clone(),
                        to: treasury.clone(),
                        amount: platform,
                    },
                );
            }
        }
        let enrollment = Enrollment {
            student: student.clone(),
            course_id: course_id.clone(),
            amount_paid: c.price,
            enrolled_at_ledger: ctx.sequence,
            completed: false,
            certificate_issued: false,
            certificate_id: None,
            evidence_hash: None,
        };
        let ev = Event::StudentEnrolled {
            student: student.clone(),
            course_id: course_id.clone(),
            amount_paid: c.price,
            platform_fee: platform,
            instructor_fee: instructor_part,
            ledger: ctx.sequence,
        };
        let ghost c0 = c;
        let c2 = Course { total_enrollments: total, active_enrollments: active, total_earned: earned, ..c };
        self.enrollments.insert((student.clone(), course_id.clone()), enrollment);
        self.courses.insert(course_id.clone(), c2);
        proof {
            let expected = Model {
                enrollments: m2.enrollments.insert((student@, course_id@), enrollment),
                courses: m2.courses.insert(course_id@, c2),
                ..m2
            };
            assert(self@ =~= expected);
            let m = self@;
            assert forall|k: (Seq<char>, Seq<char>)| #[trigger] m.enrollments.contains_key(k) implies {
                &&& m.courses.contains_key(k.1)
                &&& m.enrollments[k].student@ == k.0
                &&& m.enrollments[k].course_id@ == k.1
                &&& m.enrollments[k].amount_paid >= 0
            } by {
                if k != (student@, course_id@) {
                    assert(m0.enrollments.contains_key(k));
                }
            }
            assert forall|k: Seq<char>| #[trigger] m.courses.contains_key(k) implies
                model::course_ok(k, m.courses[k]) by {
                if k != course_id@ {
                    assert(m0.courses.contains_key(k));
                }
            }
            assert(!m0.enrollments.contains_key((student@, course_id@)));
            model::lemma_uncompleted_insert(m2.enrollments, (student@, course_id@), enrollment);
            assert forall|k: Seq<char>| #[trigger] m.courses.contains_key(k) implies m.courses[k].active_enrollments
                == model::uncompleted(m.enrollments, k).len() by {
                assert(model::uncompleted(m.enrollments, k).len() == model::uncompleted(
                    m2.enrollments,
                    k,
                ).len() + (if course_id@ == k { 1int } else { 0int }));
                if k != course_id@ {
                    assert(m0.courses.contains_key(k));
                }
            }
            assert forall|k: (Seq<char>, Seq<char>)| #[trigger] m.earnings.contains_key(k) implies
                m.earnings[k] > 0 by {
                if !(credit && k == (c0.instructor@, c0.token@)) {
                    assert(m0.earnings.contains_key(k));
                }
            }
            assert(transfers@ =~= (if c0.price > 0 {
                seq![
                    Transfer { token: c0.token, from: *student, to: ctx.contract, amount: c0.price },
                ] + if platform > 0 {
                    seq![
                        Transfer { token: c0.token, from: ctx.contract, to: treasury, amount: platform },
                    ]
                } else {
                    Seq::<Transfer>::empty()
                }
            } else {
                Seq::<Transfer>::empty()
            }));
        }
        Ok((transfers, ev))
    }

    /// A student enrolls in a course and pays its price.
    pub fn enroll(&mut self, ctx: &CallContext, student: &String, course_id: &String) -> (r:
        Result<Outcome<()>, Error>)
        requires
            old(self).wf(),
        ensures
            final(self).wf(),
            answers(
                model::enroll(old(self)@, *ctx, *student, *course_id),
                old(self)@,
                final(self)@,
                r,
            ),
    {
        let (transfers, ev) = self.enroll_internal(ctx, student, course_id)?;
        let mut events: Vec<Event> = Vec::new();
        events.push(ev);
        Ok(Outcome { value: (), auths: one(student), transfers, events })
    }

    /// A student enrolls in several courses at once: every course is checked
    /// before any payment, and either all enrollments happen or none.
    pub fn batch_enroll(&mut self, ctx: &CallContext, student: &String, course_ids: &Vec<String>) -> (r:
        Result<Outcome<()>, Error>)
        requires
            old(self).wf(),
        ensures
            final(self).wf(),
            answers(
                model::batch_enroll(old(self)@, *ctx, *student, course_ids@),
                old(self)@,
                final(self)@,
                r,
            ),
    {
        let n = course_ids.len();
        if n == 0 {
            return Err(Error::EmptyBatch);
        }
        let ghost ids = course_ids@;
        for i in 0..n
            invariant
                n == ids.len(),
                ids == course_ids@,
                self.wf(),
                self@ == old(self)@,
                forall|a: int, b: int| 0 <= a < i && a < b < n ==> ids[a]@ != ids[b]@,
        {
            for j in (i + 1)..n
                invariant
                    n == ids.len(),
                    ids == course_ids@,
                    self.wf(),
                    self@ == old(self)@,
                    i < n,
                    forall|b: int| i < b < j ==> ids[i as int]@ != ids[b]@,
            {
                if course_ids[i] == course_ids[j] {
                    proof {
                        assert(model::has_duplicate(ids)) by {
                            assert(0 <= i < j < ids.len() && ids[i as int]@ == ids[j as int]@);
                        }
                    }
                    return Err(Error::DuplicateInBatch);
                }
            }
        }
        assert(!model::has_duplicate(ids));
        for i in 0..n
            invariant
                n == ids.len(),
                ids == course_ids@,
                self.wf(),
                self@ == old(self)@,
                ids.len() > 0,
                !model::has_duplicate(ids),
                model::first_enrollment_error(old(self)@, *student, ids.take(i as int)) is None,
        {
            let v = self.validate_enrollment(student, &course_ids[i]);
            proof {
                assert(ids.take(i + 1).drop_last() =~= ids.take(i as int));
                assert(ids.take(i + 1).last() == ids[i as int]);
            }
            match v {
                Ok(()) => {},
                Err(e) => {
                    proof {
                        assert(model::first_enrollment_error(old(self)@, *student, ids.take(i + 1))
                            == Some(e));
                        model::lemma_first_error_prefix(old(self)@, *student, ids, i + 1);
                    }
                    return Err(e);
                },
            }
        }
        assert(ids.take(n as int) =~= ids);
        let saved = self.snapshot();
        let mut transfers: Vec<Transfer> = Vec::new();
        let mut events: Vec<Event> = Vec::new();
        for i in 0..n
            invariant
                n == ids.len(),
                ids == course_ids@,
                self.wf(),
                saved.wf(),
                saved@ == old(self)@,
                ids.len() > 0,
                !model::has_duplicate(ids),
                model::first_enrollment_error(old(self)@, *student, ids) is None,
                model::enroll_all(old(self)@, *ctx, *student, ids.take(i as int)) == Ok::<
                    (Model, Seq<Transfer>, Seq<Event>),
                    Error,
                >((self@, transfers@, events@)),
        {
            let ghost before = self@;
            let ghost ts0 = transfers@;
            let ghost es0 = events@;
            let res = self.enroll_internal(ctx, student, &course_ids[i]);
            proof {
                assert(ids.take(i + 1).drop_last() =~= ids.take(i as int));
                assert(ids.take(i + 1).last() == ids[i as int]);
            }
            match res {
                Ok((mut ts, ev)) => {
                    transfers.append(&mut ts);
                    events.push(ev);
                },
                Err(e) => {
                    proof {
                        assert(model::enroll_all(old(self)@, *ctx, *student, ids.take(i + 1))
                            == Err::<(Model, Seq<Transfer>, Seq<Event>), Error>(e));
                        model::lemma_enroll_all_prefix(old(self)@, *ctx, *student, ids, i + 1);
                    }
                    *self = saved;
                    return Err(e);
                },
            }
        }
        Ok(Outcome { value: (), auths: one(student), transfers, events })
    }

    /// An instructor withdraws earnings in a token; an amount of 0 withdraws
    /// the whole balance.
    pub fn withdraw_earnings(
        &mut self,
        ctx: &CallContext,
        instructor: &String,
        token: &String,
        amount: i128,
    ) -> (r: Result<Outcome<()>, Error>)
        requires
            old(self).wf(),
        ensures
            final(self).wf(),
            answers(
                model::withdraw_earnings(old(self)@, *ctx, *instructor, *token, amount),
                old(self)@,
                final(self)@,
                r,
            ),
    {
        if amount < 0 {
            return Err(Error::NegativeWithdrawal);
        }
        let balance = self.earnings_of(instructor, token);
        let w = if amount == 0 {
            balance
        } else {
            amount
        };
        if w == 0 {
            return Ok(outcome(one(instructor)));
        }
        if w > balance {
            return Err(Error::InsufficientEarnings);
        }
        self.set_earnings(instructor, token, balance - w);
        let mut transfers: Vec<Transfer> = Vec::new();
        transfers.push(
            Transfer {
                token: token.clone(),
                from: ctx.contract.clone(),
                to: instructor.clone(),
                amount: w,
            },
        );
        let mut events: Vec<Event> = Vec::new();
        events.push(
            Event::EarningsWithdrawn { instructor: instructor.clone(), token: token.clone(), amount: w },
        );
        Ok(Outcome { value: (), auths: one(instructor), transfers, events })
    }

    // --------------------------------------------------------------
    // Refunds
    // --------------------------------------------------------------

    fn refund_payment(
        &mut self,
        ctx: &CallContext,
        course: &Course,
        treasury: &String,
        student: &String,
        amount: i128,
    ) -> (r: Result<Vec<Transfer>, Error>)
        requires
            old(self).wf(),
            amount >= 0,
            course.platform_fee_percent <= 100,
        ensures
            final(self).wf(),
            match r {
                Ok(ts) => model::refund_payment(old(self)@, *ctx, *course, *treasury, *student, amount)
                    == Ok::<(Model, Seq<Transfer>), Error>((final(self)@, ts@)),
                Err(e) => model::refund_payment(old(self)@, *ctx, *course, *treasury, *student, amount)
                    == Err::<(Model, Seq<Transfer>), Error>(e) && final(self)@ == old(self)@,
            },
    {
        proof {
            crate::fees::lemma_fee_split_conserves(amount, course.platform_fee_percent);
        }
        let (platform, part) = split_fee(amount, course.platform_fee_percent)?;
        let mut transfers: Vec<Transfer> = Vec::new();
        if platform > 0 {
            transfers.push(
                Transfer {
                    token: course.token.clone(),
                    from: treasury.clone(),
                    to: student.clone(),
                    amount: platform,
                },
            );
        }
        let ghost t1 = transfers@;
        if part > 0 {
            let bal = self.earnings_of(&course.instructor, &course.token);
            if part > bal {
                return Err(Error::InsufficientEarningsForRefund);
            }
            self.set_earnings(&course.instructor, &course.token, bal - part);
            transfers.push(
                Transfer {
                    token: course.token.clone(),
                    from: ctx.contract.clone(),
                    to: student.clone(),
                    amount: part,
                },
            );
        }
        Ok(transfers)
    }

    /// Both admins archive a Paused course for good. The listed students
    /// whose enrollment is not completed are refunded in full first; the
    /// course must then have no active enrollment left.
    pub fn archive_course(
        &mut self,
        ctx: &CallContext,
        admin1: &String,
        admin2: &String,
        course_id: &String,
        students_to_refund: &Option<Vec<String>>,
    ) -> (r: Result<Outcome<()>, Error>)
        requires
            old(self).wf(),
        ensures
            final(self).wf(),
            answers(
                model::archive_course(
                    old(self)@,
                    *ctx,
                    *admin1,
                    *admin2,
                    *course_id,
                    model::opt_seq(*students_to_refund),
                ),
                old(self)@,
                final(self)@,
                r,
            ),
    {
        self.check_multi_admin(admin1, admin2)?;
        let c = match self.courses.get(course_id) {
            Some(c) => c.dup(),
            None => {
                return Err(Error::CourseNotFound);
            },
        };
        if c.status != CourseStatus::Paused {
            return Err(Error::MustBePausedToArchive);
        }
        let ghost m0 = old(self)@;
        let ghost c0 = c;
        proof {
            assert(model::course_ok(course_id@, c0));
        }
        let saved = self.snapshot();
        let mut course = c;
        let mut transfers: Vec<Transfer> = Vec::new();
        let mut count: usize = 0;
        let mut total: i128 = 0;
        match students_to_refund {
            None => {},
            Some(students) => {
                let treasury = match &self.treasury {
                    None => {
                        return Err(Error::TreasuryNotSet);
                    },
                    Some(t) => t.clone(),
                };
                let n = students.len();
                for i in 0..n
                    invariant
                        n == students@.len(),
                        self.wf(),
                        saved.wf(),
                        saved@ == m0,
                        m0 == old(self)@,
                        model::multi_admin_check(m0, *admin1, *admin2) is None,
                        m0.courses.contains_key(course_id@),
                        m0.courses[course_id@] == c0,
                        c0.status == CourseStatus::Paused,
                        m0.treasury == Some(treasury),
                        model::opt_seq(*students_to_refund) == Some(students@),
                        model::course_ok(course_id@, course),
                        course.platform_fee_percent == c0.platform_fee_percent,
                        course.token == c0.token,
                        course.instructor == c0.instructor,
                        course.status == c0.status,
                        self@.courses.contains_key(course_id@),
                        self@.courses[course_id@] == course,
                        count <= i,
                        count + course.active_enrollments == c0.active_enrollments,
                        model::archive_refunds(
                            m0,
                            *ctx,
                            *course_id,
                            c0,
                            treasury,
                            students@.take(i as int),
                        ) == Ok::<model::Refunded, Error>(
                            model::Refunded {
                                state: self@,
                                course,
                                transfers: transfers@,
                                count: count as nat,
                                total: total as int,
                            },
                        ),
                {
                    let ghost m1 = self@;
                    let ghost cc = course;
                    let ghost ts0 = transfers@;
                    proof {
                        assert(students@.take(i + 1).drop_last() =~= students@.take(i as int));
                        assert(students@.take(i + 1).last() == students@[i as int]);
                    }
                    let s = &students[i];
                    let key = (s.clone(), course_id.clone());
                    let amount = match self.enrollments.get(&key) {
                        Some(e) => {
                            if e.completed {
                                None
                            } else {
                                Some(e.amount_paid)
                            }
                        },
                        None => None,
                    };
                    match amount {
                        None => {},
                        Some(amount) => {
                            proof {
                                // the refunded enrollment is one the active count counts
                                let open = model::uncompleted(m1.enrollments, course_id@);
                                m1.enrollments.dom().lemma_len_filter(
                                    |k: (Seq<char>, Seq<char>)| k.1 == course_id@
                                        && !m1.enrollments[k].completed,
                                );
                                assert(open.contains(key@));
                                assert(open.remove(key@).len() == open.len() - 1);
                                assert(course.active_enrollments >= 1);
                            }
                            match self.refund_payment(ctx, &course, &treasury, s, amount) {
                                Ok(mut ts) => {
                                    let new_total = match total.checked_add(amount) {
                                        Some(t) => t,
                                        None => {
                                            proof {
                                                assert(model::archive_refunds(
                                                    m0,
                                                    *ctx,
                                                    *course_id,
                                                    c0,
                                                    treasury,
                                                    students@.take(i + 1),
                                                ) == Err::<model::Refunded, Error>(
                                                    Error::RefundTotalOverflow,
                                                ));
                                                model::lemma_archive_refunds_prefix(
                                                    m0,
                                                    *ctx,
                                                    *course_id,
                                                    c0,
                                                    treasury,
                                                    students@,
                                                    i + 1,
                                                );
                                            }
                                            *self = saved;
                                            return Err(Error::RefundTotalOverflow);
                                        },
                                    };
                                    total = new_total;
                                    count = count + 1;
                                    transfers.append(&mut ts);
                                    let ghost m2 = self@;
                                    self.enrollments.remove(&key);
                                    course.active_enrollments =
                                        if course.active_enrollments > 0 {
                                            course.active_enrollments - 1
                                        } else {
                                            0
                                        };
                                    self.courses.insert(course_id.clone(), course.dup());
                                    proof {
                                        assert(course == model::less_active(cc));
                                        assert(self@ =~= Model {
                                            enrollments: m2.enrollments.remove(key@),
                                            courses: m2.courses.insert(course_id@, model::less_active(cc)),
                                            ..m2
                                        });
                                        let m = self@;
                                        assert forall|k: Seq<char>| #[trigger] m.courses.contains_key(k) implies
                                            model::course_ok(k, m.courses[k]) by {
                                            if k != course_id@ {
                                                assert(m2.courses.contains_key(k));
                                            }
                                        }
                                        model::lemma_uncompleted_remove(m2.enrollments, key@);
                                        assert forall|k: Seq<char>| #[trigger] m.courses.contains_key(k)
                                            implies m.courses[k].active_enrollments
                                            == model::uncompleted(m.enrollments, k).len() by {
                                            assert(m2.courses.contains_key(k));
                                        }
                                        assert forall|k: (Seq<char>, Seq<char>)| #[trigger]
                                            m.enrollments.contains_key(k) implies {
                                            &&& m.courses.contains_key(k.1)
                                            &&& m.enrollments[k].student@ == k.0
                                            &&& m.enrollments[k].course_id@ == k.1
                                            &&& m.enrollments[k].amount_paid >= 0
                                        } by {
                                            assert(m2.enrollments.contains_key(k));
                                        }
                                    }
                                },
                                Err(e) => {
                                    proof {
                                        assert(model::archive_refunds(
                                            m0,
                                            *ctx,
                                            *course_id,
                                            c0,
                                            treasury,
                                            students@.take(i + 1),
                                        ) == Err::<model::Refunded, Error>(e));
                                        model::lemma_archive_refunds_prefix(
                                            m0,
                                            *ctx,
                                            *course_id,
                                            c0,
                                            treasury,
                                            students@,
                                            i + 1,
                                        );
                                    }
                                    *self = saved;
                                    return Err(e);
                                },
                            }
                        },
                    }
                }
                proof {
                    assert(students@.take(n as int) =~= students@);
                }
            },
        }
        if course.active_enrollments > 0 {
            *self = saved;
            return Err(Error::ActiveEnrollmentsRemain);
        }
        let ghost m1 = self@;
        let ghost c1 = course;
        course.status = CourseStatus::Archived;
        assert(course == model::with_status(c1, CourseStatus::Archived));
        self.courses.insert(course_id.clone(), course);
        proof {
            assert(self@ =~= Model {
                courses: m1.courses.insert(course_id@, model::with_status(c1, CourseStatus::Archived)),
                ..m1
            });
            let m = self@;
            assert forall|k: Seq<char>| #[trigger] m.courses.contains_key(k) implies
                model::course_ok(k, m.courses[k]) by {
                if k != course_id@ {
                    assert(m1.courses.contains_key(k));
                }
            }
            assert forall|k: (Seq<char>, Seq<char>)| #[trigger] m.enrollments.contains_key(k) implies
                m.courses.contains_key(k.1) by {
                assert(m1.courses.contains_key(k.1));
            }
        }
        let mut events: Vec<Event> = Vec::new();
        events.push(
            Event::CourseArchived {
                admin1: admin1.clone(),
                admin2: admin2.clone(),
                course_id: course_id.clone(),
                refund_count: count as u32,
                total_refunded: total,
                ledger: ctx.sequence,
            },
        );
        Ok(Outcome { value: (), auths: two(admin1, admin2), transfers, events })
    }

    /// A student asks for a refund of an enrollment within the refund window.
    pub fn request_refund(&mut self, ctx: &CallContext, student: &String, course_id: &String) -> (r:
        Result<Outcome<()>, Error>)
        requires
            old(self).wf(),
        ensures
            final(self).wf(),
            answers(
                model::request_refund(old(self)@, *ctx, *student, *course_id),
                old(self)@,
                final(self)@,
                r,
            ),
    {
        let key = (student.clone(), course_id.clone());
        let (amount, enrolled_at) = match self.enrollments.get(&key) {
            Some(e) => (e.amount_paid, e.enrolled_at_ledger),
            None => {
                return Err(Error::EnrollmentNotFound);
            },
        };
        let pending = match self.refunds.get(&key) {
            Some(q) => q.status == RefundStatus::Pending,
            None => false,
        };
        if pending {
            return Err(Error::RefundAlreadyRequested);
        }
        if ctx.sequence as u64 > enrolled_at as u64 + self.refund_window as u64 {
            return Err(Error::RefundWindowExpired);
        }
        let request = RefundRequest {
            student: student.clone(),
            course_id: course_id.clone(),
            amount,
            requested_at_ledger: ctx.sequence,
            status: RefundStatus::Pending,
        };
        self.refunds.insert(key, request);
        proof {
            assert(self@ =~= Model {
                refunds: old(self)@.refunds.insert((student@, course_id@), request),
                ..old(self)@
            });
        }
        Ok(outcome(one(student)))
    }

    /// An admin approves or rejects a pending refund request. An approved
    /// refund pays the enrollment back in full and removes the enrollment.
    pub fn process_refund(
        &mut self,
        ctx: &CallContext,
        admin: &String,
        student: &String,
        course_id: &String,
        approve: bool,
    ) -> (r: Result<Outcome<()>, Error>)
        requires
            old(self).wf(),
        ensures
            final(self).wf(),
            answers(
                model::process_refund(old(self)@, *ctx, *admin, *student, *course_id, approve),
                old(self)@,
                final(self)@,
                r,
            ),
    {
        self.check_admin(admin, AdminOp::ProcessRefund)?;
        let key = (student.clone(), course_id.clone());
        let mut request = match self.refunds.get(&key) {
            Some(q) => q.dup(),
            None => {
                return Err(Error::RefundRequestNotFound);
            },
        };
        if request.status != RefundStatus::Pending {
            return Err(Error::RefundNotPending);
        }
        let ghost q0 = request;
        if !approve {
            request.status = RefundStatus::Rejected;
            assert(request == model::with_refund_status(q0, RefundStatus::Rejected));
            self.refunds.insert(key, request);
            proof {
                assert(self@ =~= Model {
                    refunds: old(self)@.refunds.insert(
                        (student@, course_id@),
                        model::with_refund_status(q0, RefundStatus::Rejected),
                    ),
                    ..old(self)@
                });
            }
            return Ok(outcome(one(admin)));
        }
        let (amount, completed) = match self.enrollments.get(&key) {
            Some(e) => (e.amount_paid, e.completed),
            None => {
                return Err(Error::EnrollmentNotFound);
            },
        };
        let c = match self.courses.get(course_id) {
            Some(c) => c.dup(),
            None => {
                return Err(Error::CourseNotFound);
            },
        };
        let treasury = match &self.treasury {
            None => {
                return Err(Error::TreasuryNotSet);
            },
            Some(t) => t.clone(),
        };
        proof {
            assert(model::course_ok(course_id@, c));
        }
        let transfers = self.refund_payment(ctx, &c, &treasury, student, amount)?;
        let ghost m1 = self@;
        let ghost c0 = c;
        let c1 = if completed {
            c
        } else {
            Course {
                active_enrollments: if c.active_enrollments > 0 {
                    c.active_enrollments - 1
                } else {
                    0
                },
                ..c
            }
        };
        self.enrollments.remove(&key);
        self.courses.insert(course_id.clone(), c1);
        request.status = RefundStatus::Approved;
        assert(request == model::with_refund_status(q0, RefundStatus::Approved));
        self.refunds.insert(key, request);
        proof {
            assert(self@ =~= Model {
                enrollments: m1.enrollments.remove((student@, course_id@)),
                courses: m1.courses.insert(course_id@, c1),
                refunds: m1.refunds.insert(
                    (student@, course_id@),
                    model::with_refund_status(q0, RefundStatus::Approved),
                ),
                ..m1
            });
            let m = self@;
            assert forall|k: Seq<char>| #[trigger] m.courses.contains_key(k) implies
                model::course_ok(k, m.courses[k]) by {
                if k != course_id@ {
                    assert(m1.courses.contains_key(k));
                }
            }
            assert forall|k: (Seq<char>, Seq<char>)| #[trigger] m.enrollments.contains_key(k) implies {
                &&& m.courses.contains_key(k.1)
                &&& m.enrollments[k].student@ == k.0
                &&& m.enrollments[k].course_id@ == k.1
                &&& m.enrollments[k].amount_paid >= 0
            } by {
                assert(m1.enrollments.contains_key(k));
            }
            model::lemma_uncompleted_remove(m1.enrollments, (student@, course_id@));
            assert forall|k: Seq<char>| #[trigger] m.courses.contains_key(k) implies m.courses[k].active_enrollments
                == model::uncompleted(m.enrollments, k).len() by {
                assert(m1.courses.contains_key(k));
            }
        }
        Ok(Outcome { value: (), auths: one(admin), transfers, events: Vec::new() })
    }

    // --------------------------------------------------------------
    // Completion and certificates
    // --------------------------------------------------------------

    /// An admin marks an enrollment completed. Without evidence the student
    /// must authorize too.
    pub fn mark_completed(
        &mut self,
        ctx: &CallContext,
        admin: &String,
        student: &String,
        course_id: &String,
        evidence_hash: &Option<String>,
    ) -> (r: Result<Outcome<()>, Error>)
        requires
            old(self).wf(),
        ensures
            final(self).wf(),
            answers(
                model::mark_completed(
                    old(self)@,
                    *ctx,
                    *admin,
                    *student,
                    *course_id,
                    *evidence_hash,
                ),
                old(self)@,
                final(self)@,
                r,
            ),
    {
        self.check_admin(admin, AdminOp::MarkCompleted)?;
        let key = (student.clone(), course_id.clone());
        let mut e = match self.enrollments.get(&key) {
            Some(e) => e.dup(),
            None => {
                return Err(Error::EnrollmentNotFound);
            },
        };
        if e.completed {
            return Err(Error::AlreadyCompleted);
        }
        let c = match self.courses.get(course_id) {
            Some(c) => c.dup(),
            None => {
                return Err(Error::CourseNotFound);
            },
        };
        let ghost e0 = e;
        let ghost c0 = c;
        e.completed = true;
        e.evidence_hash = evidence_hash.dup();
        let c2 = Course {
            active_enrollments: if c.active_enrollments > 0 {
                c.active_enrollments - 1
            } else {
                0
            },
            ..c
        };
        assert(c2 == model::less_active(c0));
        self.enrollments.insert(key, e);
        self.courses.insert(course_id.clone(), c2);
        proof {
            let m0 = old(self)@;
            assert(self@ =~= Model {
                enrollments: m0.enrollments.insert(
                    (student@, course_id@),
                    Enrollment { completed: true, evidence_hash: *evidence_hash, ..e0 },
                ),
                courses: m0.courses.insert(course_id@, model::less_active(c0)),
                ..m0
            });
            let m = self@;
            assert forall|k: Seq<char>| #[trigger] m.courses.contains_key(k) implies
                model::course_ok(k, m.courses[k]) by {
                if k != course_id@ {
                    assert(m0.courses.contains_key(k));
                }
            }
            model::lemma_uncompleted_insert(
                m0.enrollments,
                (student@, course_id@),
                Enrollment { completed: true, evidence_hash: *evidence_hash, ..e0 },
            );
            assert forall|k: Seq<char>| #[trigger] m.courses.contains_key(k) implies m.courses[k].active_enrollments
                == model::uncompleted(m.enrollments, k).len() by {
                assert(model::uncompleted(m.enrollments, k).len() == model::uncompleted(
                    m0.enrollments,
                    k,
                ).len() - (if course_id@ == k { 1int } else { 0int }));
                assert(m0.courses.contains_key(k));
            }
            assert forall|k: (Seq<char>, Seq<char>)| #[trigger] m.enrollments.contains_key(k) implies {
                &&& m.courses.contains_key(k.1)
                &&& m.enrollments[k].student@ == k.0
                &&& m.enrollments[k].course_id@ == k.1
                &&& m.enrollments[k].amount_paid >= 0
            } by {
                assert(m0.enrollments.contains_key(k));
            }
        }
        let auths = if evidence_hash.is_none() {
            two(admin, student)
        } else {
            one(admin)
        };
        Ok(
            outcome_with(
                auths,
                Event::CourseCompleted {
                    admin: admin.clone(),
                    student: student.clone(),
                    course_id: course_id.clone(),
                    has_evidence: evidence_hash.is_some(),
                    ledger: ctx.sequence,
                },
            ),
        )
    }

    /// An admin issues a certificate for a completed enrollment.
    pub fn issue_certificate(
        &mut self,
        ctx: &CallContext,
        admin: &String,
        certificate_id: &String,
        student: &String,
        course_id: &String,
        course_title: &String,
        enrollment_reference: &String,
        expires_at_ledger: Option<u32>,
    ) -> (r: Result<Outcome<String>, Error>)
        requires
            old(self).wf(),
        ensures
            final(self).wf(),
            answers(
                model::issue_certificate(
                    old(self)@,
                    *ctx,
                    *admin,
                    *certificate_id,
                    *student,
                    *course_id,
                    *course_title,
                    *enrollment_reference,
                    expires_at_ledger,
                ),
                old(self)@,
                final(self)@,
                r,
            ),
    {
        self.check_admin(admin, AdminOp::IssueCertificate)?;
        if text_len(certificate_id) > MAX_ID_LEN as usize {
            return Err(Error::CertificateIdTooLong);
        }
        if text_len(course_title) > MAX_TITLE_LEN as usize {
            return Err(Error::CourseTitleTooLong);
        }
        let key = (student.clone(), course_id.clone());
        let mut e = match self.enrollments.get(&key) {
            Some(e) => e.dup(),
            None => {
                return Err(Error::EnrollmentNotFound);
            },
        };
        if !e.completed {
            return Err(Error::NotCompleted);
        }
        if e.certificate_issued {
            return Err(Error::CertificateAlreadyIssued);
        }
        if self.certificates.contains_key(certificate_id) {
            return Err(Error::CertificateIdExists);
        }
        let instructor = match self.courses.get(course_id) {
            Some(c) => c.instructor.clone(),
            None => {
                return Err(Error::CourseNotFound);
            },
        };
        let cert = Certificate {
            id: certificate_id.clone(),
            student: student.clone(),
            course_id: course_id.clone(),
            course_title: course_title.clone(),
            enrollment_reference: enrollment_reference.clone(),
            instructor,
            issued_at_ledger: ctx.sequence,
            revoked: false,
            revoked_by: None,
            revoked_at_ledger: None,
            revocation_reason: None,
            expires_at_ledger,
        };
        let ghost e0 = e;
        e.certificate_issued = true;
        e.certificate_id = Some(certificate_id.clone());
        self.certificates.insert(certificate_id.clone(), cert);
        self.enrollments.insert(key, e);
        proof {
            let m0 = old(self)@;
            assert(self@ =~= Model {
                certificates: m0.certificates.insert(certificate_id@, cert),
                enrollments: m0.enrollments.insert(
                    (student@, course_id@),
                    Enrollment { certificate_issued: true, certificate_id: Some(*certificate_id), ..e0 },
                ),
                ..m0
            });
            let m = self@;
            assert forall|k: (Seq<char>, Seq<char>)| #[trigger] m.enrollments.contains_key(k) implies {
                &&& m.courses.contains_key(k.1)
                &&& m.enrollments[k].student@ == k.0
                &&& m.enrollments[k].course_id@ == k.1
                &&& m.enrollments[k].amount_paid >= 0
            } by {
                assert(m0.enrollments.contains_key(k));
            }
            assert forall|k: Seq<char>| #[trigger] m.certificates.contains_key(k) implies
                m.certificates[k].id@ == k by {
                if k != certificate_id@ {
                    assert(m0.certificates.contains_key(k));
                }
            }
            model::lemma_uncompleted_insert(
                m0.enrollments,
                (student@, course_id@),
                Enrollment { certificate_issued: true, certificate_id: Some(*certificate_id), ..e0 },
            );
            assert forall|k: Seq<char>| #[trigger] m.courses.contains_key(k) implies m.courses[k].active_enrollments
                == model::uncompleted(m.enrollments, k).len() by {
                assert(m0.courses.contains_key(k));
            }
        }
        let mut events: Vec<Event> = Vec::new();
        events.push(
            Event::CertificateIssued {
                admin: admin.clone(),
                certificate_id: certificate_id.clone(),
                student: student.clone(),
                course_id: course_id.clone(),
                course_title: course_title.clone(),
                ledger: ctx.sequence,
            },
        );
        Ok(Outcome { value: certificate_id.clone(), auths: one(admin), transfers: Vec::new(), events })
    }

    /// An admin revokes a certificate; it stays on record, flagged, with the
    /// revoking admin, the ledger and the reason.
    pub fn revoke_certificate(
        &mut self,
        ctx: &CallContext,
        admin: &String,
        certificate_id: &String,
        reason: &String,
    ) -> (r: Result<Outcome<()>, Error>)
        requires
            old(self).wf(),
        ensures
            final(self).wf(),
            answers(
                model::revoke_certificate(old(self)@, *ctx, *admin, *certificate_id, *reason),
                old(self)@,
                final(self)@,
                r,
            ),
    {
        self.check_admin(admin, AdminOp::RevokeCertificate)?;
        let mut cert = match self.certificates.get(certificate_id) {
            Some(c) => c.dup(),
            None => {
                return Err(Error::CertificateNotFound);
            },
        };
        if cert.revoked {
            return Err(Error::AlreadyRevoked);
        }
        let ghost c0 = cert;
        let student = cert.student.clone();
        let course_id = cert.course_id.clone();
        cert.revoked = true;
        cert.revoked_by = Some(admin.clone());
        cert.revoked_at_ledger = Some(ctx.sequence);
        cert.revocation_reason = Some(reason.clone());
        self.certificates.insert(certificate_id.clone(), cert);
        proof {
            let m0 = old(self)@;
            assert(self@ =~= Model {
                certificates: m0.certificates.insert(
                    certificate_id@,
                    Certificate {
                        revoked: true,
                        revoked_by: Some(*admin),
                        revoked_at_ledger: Some(ctx.sequence),
                        revocation_reason: Some(*reason),
                        ..c0
                    },
                ),
                ..m0
            });
            let m = self@;
            assert forall|k: Seq<char>| #[trigger] m.certificates.contains_key(k) implies
                m.certificates[k].id@ == k by {
                assert(m0.certificates.contains_key(k));
            }
        }
        Ok(
            outcome_with(
                one(admin),
                Event::CertificateRevoked {
                    admin: admin.clone(),
                    certificate_id: certificate_id.clone(),
                    student,
                    course_id,
                    reason: reason.clone(),
                    ledger: ctx.sequence,
                },
            ),
        )
    }

    /// Reads an enrollment; the caller must be the student, an admin or the
    /// course's instructor, and must authorize.
    pub fn get_enrollment(&self, caller: &String, student: &String, course_id: &String) -> (r:
        Result<Outcome<Option<Enrollment>>, Error>)
        requires
            self.wf(),
        ensures
            answers(model::get_enrollment(self@, *caller, *student, *course_id), self@, self@, r),
    {
        let is_admin = self.is_admin(caller);
        let is_instructor = match self.courses.get(course_id) {
            Some(c) => *caller == c.instructor,
            None => {
                return Err(Error::CourseNotFound);
            },
        };
        if *caller != *student && !is_admin && !is_instructor {
            return Err(Error::Unauthorized);
        }
        let key = (student.clone(), course_id.clone());
        let value = match self.enrollments.get(&key) {
            Some(e) => Some(e.dup()),
            None => None,
        };
        Ok(Outcome { value, auths: one(caller), transfers: Vec::new(), events: Vec::new() })
    }

    // --------------------------------------------------------------
    // Saving and loading
    // --------------------------------------------------------------

    /// Loads a saved state; refuses lists that repeat a key or break the
    /// platform's invariant.
    pub fn from_parts(p: PlatformParts) -> (r: Result<Self, Error>)
        ensures
            r is Ok <==> parts_valid(p),
            r matches Ok(c) ==> c.wf() && loaded(p, c@),
            r matches Err(e) ==> e == Error::InvalidState,
    {
        if p.default_fee > 100 || !distinct_or_unset(&p.admin, &p.secondary_admin)
            || !distinct_or_unset(&p.pending_admin, &p.pending_secondary_admin)
            || !counts_match(&p.courses, &p.enrollments) {
            return Err(Error::InvalidState);
        }
        let courses = match load_courses(&p.courses) {
            Some(t) => t,
            None => {
                return Err(Error::InvalidState);
            },
        };
        proof {
            // an enrollment's course is listed exactly when it is loaded
            assert forall|cid: Seq<char>| courses@.contains_key(cid) <==> exists|j: int|
                0 <= j < p.courses@.len() && #[trigger] p.courses@[j].id@ == cid by {
                if exists|j: int| 0 <= j < p.courses@.len() && #[trigger] p.courses@[j].id@ == cid {
                    let j = choose|j: int| 0 <= j < p.courses@.len() && #[trigger] p.courses@[j].id@ == cid;
                    assert(courses@.contains_key(course_key()(p.courses@[j])));
                }
                if courses@.contains_key(cid) {
                    let j = choose|j: int| 0 <= j < p.courses@.len() && course_key()(p.courses@[j]) == cid;
                    assert(p.courses@[j].id@ == cid);
                }
            }
        }
        let enrollments = match load_enrollments(&p.enrollments, &courses) {
            Some(t) => t,
            None => {
                proof {
                    if parts_valid(p) {
                        assert forall|i: int| 0 <= i < p.enrollments@.len() implies courses@.contains_key(
                            #[trigger] p.enrollments@[i].course_id@,
                        ) && p.enrollments@[i].amount_paid >= 0 by {
                            let j = choose|j: int|
                                0 <= j < p.courses@.len() && #[trigger] p.courses@[j].id@
                                    == p.enrollments@[i].course_id@;
                            assert(courses@.contains_key(course_key()(p.courses@[j])));
                        }
                    }
                }
                return Err(Error::InvalidState);
            },
        };
        let certificates = match load_certificates(&p.certificates) {
            Some(t) => t,
            None => {
                return Err(Error::InvalidState);
            },
        };
        let earnings = match load_earnings(&p.earnings) {
            Some(t) => t,
            None => {
                return Err(Error::InvalidState);
            },
        };
        let course_counts = match load_counts(&p.course_counts) {
            Some(t) => t,
            None => {
                return Err(Error::InvalidState);
            },
        };
        let refunds = match load_refunds(&p.refunds) {
            Some(t) => t,
            None => {
                return Err(Error::InvalidState);
            },
        };
        let approved_tokens = load_set(&p.approved_tokens);
        let frozen = load_set(&p.frozen);
        let catalog = dup_vec(&p.catalog);
        let ghost pp = p;
        let c = HamplardContract {
            admin: p.admin,
            secondary_admin: p.secondary_admin,
            treasury: p.treasury,
            default_fee: p.default_fee,
            max_courses: p.max_courses,
            paused: p.paused,
            pending_treasury: p.pending_treasury,
            pending_admin: p.pending_admin,
            pending_secondary_admin: p.pending_secondary_admin,
            min_review_delay: p.min_review_delay,
            refund_window: p.refund_window,
            courses,
            enrollments,
            certificates,
            earnings,
            course_counts,
            approved_tokens,
            frozen,
            catalog,
            refunds,
        };
        proof {
            let m = c@;
            assert(loaded(pp, m));
            assert forall|k: Seq<char>| #[trigger] m.courses.contains_key(k) implies model::course_ok(
                k,
                m.courses[k],
            ) && m.courses[k].active_enrollments == model::uncompleted(m.enrollments, k).len() by {
                let i = choose|i: int| 0 <= i < pp.courses@.len() && course_key()(pp.courses@[i]) == k;
                assert(pp.courses@[i].id@ == k);
                lemma_open_count(m.enrollments, pp.enrollments@, k);
            }
            assert forall|k: (Seq<char>, Seq<char>)| #[trigger] m.enrollments.contains_key(k) implies {
                &&& m.courses.contains_key(k.1)
                &&& m.enrollments[k].student@ == k.0
                &&& m.enrollments[k].course_id@ == k.1
                &&& m.enrollments[k].amount_paid >= 0
            } by {
                let i = choose|i: int|
                    0 <= i < pp.enrollments@.len() && enrollment_key()(pp.enrollments@[i]) == k;
                assert(m.enrollments.contains_key(enrollment_key()(pp.enrollments@[i])));
                assert(m.courses.contains_key(pp.enrollments@[i].course_id@));
            }
            assert forall|k: (Seq<char>, Seq<char>)| #[trigger] m.earnings.contains_key(k) implies m.earnings[k]
                > 0 by {
                let i = choose|i: int| 0 <= i < pp.earnings@.len() && earning_key()(pp.earnings@[i]) == k;
                assert(m.earnings.contains_key(earning_key()(pp.earnings@[i])));
                assert(pp.earnings@[i].2 > 0);
            }
            assert forall|k: Seq<char>| #[trigger] m.certificates.contains_key(k) implies m.certificates[k].id@
                == k by {
                let i = choose|i: int|
                    0 <= i < pp.certificates@.len() && certificate_key()(pp.certificates@[i]) == k;
                assert(m.certificates.contains_key(certificate_key()(pp.certificates@[i])));
            }
            assert forall|k: (Seq<char>, Seq<char>)| #[trigger] m.refunds.contains_key(k) implies {
                &&& m.refunds[k].student@ == k.0
                &&& m.refunds[k].course_id@ == k.1
            } by {
                let i = choose|i: int| 0 <= i < pp.refunds@.len() && refund_key()(pp.refunds@[i]) == k;
                assert(m.refunds.contains_key(refund_key()(pp.refunds@[i])));
            }
            assert forall|i: int| 0 <= i < pp.enrollments@.len() implies (exists|j: int|
                0 <= j < pp.courses@.len() && #[trigger] pp.courses@[j].id@
                    == pp.enrollments@[i].course_id@) && #[trigger] pp.enrollments@[i].amount_paid >= 0 by {
                assert(m.courses.contains_key(pp.enrollments@[i].course_id@));
            }
        }
        Ok(c)
    }

    /// The state as lists, ready to be saved.
    pub fn to_parts(&self) -> (p: PlatformParts)
        requires
            self.wf(),
        ensures
            parts_valid(p),
            loaded(p, self@),
    {
        let (course_keys, courses) = self.courses.entries();
        let (enrollment_keys, enrollments) = self.enrollments.entries();
        let (certificate_keys, certificates) = self.certificates.entries();
        let (refund_keys, refunds) = self.refunds.entries();
        let (earning_keys, earning_vals) = self.earnings.entries();
        let (count_keys, count_vals) = self.course_counts.entries();
        let (approved_tokens, approved_units) = self.approved_tokens.entries();
        let (frozen, frozen_units) = self.frozen.entries();
        let mut earnings: Vec<(String, String, i128)> = Vec::new();
        let n = earning_keys.len();
        let mut i: usize = 0;
        while i < n
            invariant
                n == earning_keys@.len(),
                earning_keys@.len() == earning_vals@.len(),
                i <= n,
                earnings@.len() == i,
                forall|j: int|
                    0 <= j < i ==> #[trigger] earnings@[j] == (
                        earning_keys@[j].0,
                        earning_keys@[j].1,
                        earning_vals@[j],
                    ),
            decreases n - i,
        {
            earnings.push((earning_keys[i].0.clone(), earning_keys[i].1.clone(), earning_vals[i]));
            i = i + 1;
        }
        let mut course_counts: Vec<(String, u32)> = Vec::new();
        let n = count_keys.len();
        let mut i: usize = 0;
        while i < n
            invariant
                n == count_keys@.len(),
                count_keys@.len() == count_vals@.len(),
                i <= n,
                course_counts@.len() == i,
                forall|j: int| 0 <= j < i ==> #[trigger] course_counts@[j] == (count_keys@[j], count_vals@[j]),
            decreases n - i,
        {
            course_counts.push((count_keys[i].clone(), count_vals[i]));
            i = i + 1;
        }
        let p = PlatformParts {
            admin: self.admin.dup(),
            secondary_admin: self.secondary_admin.dup(),
            treasury: self.treasury.dup(),
            default_fee: self.default_fee,
            max_courses: self.max_courses,
            paused: self.paused,
            pending_treasury: self.pending_treasury.dup(),
            pending_admin: self.pending_admin.dup(),
            pending_secondary_admin: self.pending_secondary_admin.dup(),
            min_review_delay: self.min_review_delay,
            refund_window: self.refund_window,
            courses,
            enrollments,
            certificates,
            earnings,
            course_counts,
            approved_tokens,
            frozen,
            catalog: dup_vec(&self.catalog),
            refunds,
        };
        proof {
            let m = self@;
            // courses
            assert forall|i: int| 0 <= i < p.courses@.len() implies p.courses@[i].id@ == course_keys@[i]@
                && model::course_ok(p.courses@[i].id@, p.courses@[i]) by {
                assert(m.courses.contains_key(course_keys@[i]@));
            }
            assert forall|k: Seq<char>| #[trigger] m.courses.contains_key(k) implies exists|i: int|
                0 <= i < p.courses@.len() && course_key()(p.courses@[i]) == k by {
                let i = choose|i: int| 0 <= i < course_keys@.len() && #[trigger] course_keys@[i]@ == k;
                assert(p.courses@[i].id@ == course_keys@[i]@);
            }
            assert forall|i: int| 0 <= i < p.courses@.len() implies #[trigger] m.courses.contains_key(
                course_key()(p.courses@[i]),
            ) && m.courses[course_key()(p.courses@[i])] == course_val()(p.courses@[i]) by {
                assert(p.courses@[i].id@ == course_keys@[i]@);
                assert(m.courses.contains_key(course_keys@[i]@));
            }
            assert(lists(m.courses, p.courses@, course_key(), course_val()));
            assert forall|i: int, j: int| 0 <= i < j < p.courses@.len() implies course_key()(p.courses@[i])
                != course_key()(p.courses@[j]) by {
                assert(p.courses@[i].id@ == course_keys@[i]@);
                assert(p.courses@[j].id@ == course_keys@[j]@);
            }
            // enrollments
            assert forall|i: int| 0 <= i < p.enrollments@.len() implies enrollment_key()(
                p.enrollments@[i],
            ) == enrollment_keys@[i]@ by {
                assert(m.enrollments.contains_key(enrollment_keys@[i]@));
            }
            assert forall|k: (Seq<char>, Seq<char>)| #[trigger] m.enrollments.contains_key(k) implies exists|
                i: int,
            | 0 <= i < p.enrollments@.len() && enrollment_key()(p.enrollments@[i]) == k by {
                let i = choose|i: int|
                    0 <= i < enrollment_keys@.len() && #[trigger] enrollment_keys@[i]@ == k;
                assert(enrollment_key()(p.enrollments@[i]) == enrollment_keys@[i]@);
            }
            assert forall|i: int| 0 <= i < p.enrollments@.len() implies #[trigger] m.enrollments.contains_key(
                enrollment_key()(p.enrollments@[i]),
            ) && m.enrollments[enrollment_key()(p.enrollments@[i])] == enrollment_val()(p.enrollments@[i]) by {
                assert(enrollment_key()(p.enrollments@[i]) == enrollment_keys@[i]@);
                assert(m.enrollments.contains_key(enrollment_keys@[i]@));
            }
            assert(lists(m.enrollments, p.enrollments@, enrollment_key(), enrollment_val()));
            assert forall|i: int, j: int| 0 <= i < j < p.enrollments@.len() implies enrollment_key()(
                p.enrollments@[i],
            ) != enrollment_key()(p.enrollments@[j]) by {
                assert(enrollment_key()(p.enrollments@[i]) == enrollment_keys@[i]@);
                assert(enrollment_key()(p.enrollments@[j]) == enrollment_keys@[j]@);
            }
            assert forall|i: int| 0 <= i < p.enrollments@.len() implies (exists|j: int|
                0 <= j < p.courses@.len() && #[trigger] p.courses@[j].id@
                    == p.enrollments@[i].course_id@) && #[trigger] p.enrollments@[i].amount_paid >= 0 by {
                assert(m.enrollments.contains_key(enrollment_key()(p.enrollments@[i])));
                let k = p.enrollments@[i].course_id@;
                assert(m.courses.contains_key(k));
                let j = choose|j: int| 0 <= j < p.courses@.len() && course_key()(p.courses@[j]) == k;
                assert(p.courses@[j].id@ == k);
            }
            // certificates
            assert forall|i: int| 0 <= i < p.certificates@.len() implies certificate_key()(
                p.certificates@[i],
            ) == certificate_keys@[i]@ by {
                assert(m.certificates.contains_key(certificate_keys@[i]@));
            }
            assert forall|k: Seq<char>| #[trigger] m.certificates.contains_key(k) implies exists|i: int|
                0 <= i < p.certificates@.len() && certificate_key()(p.certificates@[i]) == k by {
                let i = choose|i: int|
                    0 <= i < certificate_keys@.len() && #[trigger] certificate_keys@[i]@ == k;
                assert(certificate_key()(p.certificates@[i]) == certificate_keys@[i]@);
            }
            assert forall|i: int| 0 <= i < p.certificates@.len() implies #[trigger] m.certificates.contains_key(
                certificate_key()(p.certificates@[i]),
            ) && m.certificates[certificate_key()(p.certificates@[i])] == certificate_val()(p.certificates@[i]) by {
                assert(certificate_key()(p.certificates@[i]) == certificate_keys@[i]@);
                assert(m.certificates.contains_key(certificate_keys@[i]@));
            }
            assert(lists(m.certificates, p.certificates@, certificate_key(), certificate_val()));
            assert forall|i: int, j: int| 0 <= i < j < p.certificates@.len() implies certificate_key()(
                p.certificates@[i],
            ) != certificate_key()(p.certificates@[j]) by {
                assert(certificate_key()(p.certificates@[i]) == certificate_keys@[i]@);
                assert(certificate_key()(p.certificates@[j]) == certificate_keys@[j]@);
            }
            // refunds
            assert forall|i: int| 0 <= i < p.refunds@.len() implies refund_key()(p.refunds@[i])
                == refund_keys@[i]@ by {
                assert(m.refunds.contains_key(refund_keys@[i]@));
            }
            assert forall|k: (Seq<char>, Seq<char>)| #[trigger] m.refunds.contains_key(k) implies exists|
                i: int,
            | 0 <= i < p.refunds@.len() && refund_key()(p.refunds@[i]) == k by {
                let i = choose|i: int| 0 <= i < refund_keys@.len() && #[trigger] refund_keys@[i]@ == k;
                assert(refund_key()(p.refunds@[i]) == refund_keys@[i]@);
            }
            assert forall|i: int| 0 <= i < p.refunds@.len() implies #[trigger] m.refunds.contains_key(
                refund_key()(p.refunds@[i]),
            ) && m.refunds[refund_key()(p.refunds@[i])] == refund_val()(p.refunds@[i]) by {
                assert(refund_key()(p.refunds@[i]) == refund_keys@[i]@);
                assert(m.refunds.contains_key(refund_keys@[i]@));
            }
            assert(lists(m.refunds, p.refunds@, refund_key(), refund_val()));
            assert forall|i: int, j: int| 0 <= i < j < p.refunds@.len() implies refund_key()(
                p.refunds@[i],
            ) != refund_key()(p.refunds@[j]) by {
                assert(refund_key()(p.refunds@[i]) == refund_keys@[i]@);
                assert(refund_key()(p.refunds@[j]) == refund_keys@[j]@);
            }
            // earnings
            assert forall|i: int| 0 <= i < p.earnings@.len() implies earning_key()(p.earnings@[i])
                == earning_keys@[i]@ && earning_val()(p.earnings@[i]) == earning_vals@[i] by {
                assert(p.earnings@[i].0 == earning_keys@[i].0);
            }
            assert forall|k: (Seq<char>, Seq<char>)| #[trigger] m.earnings.contains_key(k) implies exists|
                i: int,
            | 0 <= i < p.earnings@.len() && earning_key()(p.earnings@[i]) == k by {
                let i = choose|i: int| 0 <= i < earning_keys@.len() && #[trigger] earning_keys@[i]@ == k;
                assert(earning_key()(p.earnings@[i]) == earning_keys@[i]@);
            }
            assert forall|i: int| 0 <= i < p.earnings@.len() implies #[trigger] m.earnings.contains_key(
                earning_key()(p.earnings@[i]),
            ) && m.earnings[earning_key()(p.earnings@[i])] == earning_val()(p.earnings@[i]) by {
                assert(p.earnings@[i] == (earning_keys@[i].0, earning_keys@[i].1, earning_vals@[i]));
                assert(earning_key()(p.earnings@[i]) == earning_keys@[i]@);
                assert(m.earnings.contains_key(earning_keys@[i]@));
            }
            assert(lists(m.earnings, p.earnings@, earning_key(), earning_val()));
            assert forall|i: int, j: int| 0 <= i < j < p.earnings@.len() implies earning_key()(
                p.earnings@[i],
            ) != earning_key()(p.earnings@[j]) by {
                assert(earning_key()(p.earnings@[i]) == earning_keys@[i]@);
                assert(earning_key()(p.earnings@[j]) == earning_keys@[j]@);
            }
            assert forall|i: int| 0 <= i < p.earnings@.len() implies #[trigger] p.earnings@[i].2 > 0 by {
                assert(m.earnings.contains_key(earning_keys@[i]@));
            }
            // course counts
            assert forall|i: int| 0 <= i < p.course_counts@.len() implies count_key()(
                p.course_counts@[i],
            ) == count_keys@[i]@ && count_val()(p.course_counts@[i]) == count_vals@[i] by {
                assert(p.course_counts@[i].0 == count_keys@[i]);
            }
            assert forall|k: Seq<char>| #[trigger] m.course_counts.contains_key(k) implies exists|i: int|
                0 <= i < p.course_counts@.len() && count_key()(p.course_counts@[i]) == k by {
                let i = choose|i: int| 0 <= i < count_keys@.len() && #[trigger] count_keys@[i]@ == k;
                assert(count_key()(p.course_counts@[i]) == count_keys@[i]@);
            }
            assert forall|i: int| 0 <= i < p.course_counts@.len() implies #[trigger] m.course_counts.contains_key(
                count_key()(p.course_counts@[i]),
            ) && m.course_counts[count_key()(p.course_counts@[i])] == count_val()(p.course_counts@[i]) by {
                assert(p.course_counts@[i] == (count_keys@[i], count_vals@[i]));
                assert(count_key()(p.course_counts@[i]) == count_keys@[i]@);
                assert(m.course_counts.contains_key(count_keys@[i]@));
            }
            assert(lists(m.course_counts, p.course_counts@, count_key(), count_val()));
            assert forall|i: int, j: int| 0 <= i < j < p.course_counts@.len() implies count_key()(
                p.course_counts@[i],
            ) != count_key()(p.course_counts@[j]) by {
                assert(count_key()(p.course_counts@[i]) == count_keys@[i]@);
                assert(count_key()(p.course_counts@[j]) == count_keys@[j]@);
            }
            // sets
            assert forall|k: Seq<char>| m.approved_tokens.contains(k) <==> exists|i: int|
                0 <= i < p.approved_tokens@.len() && #[trigger] p.approved_tokens@[i]@ == k by {
                if exists|i: int| 0 <= i < p.approved_tokens@.len() && #[trigger] p.approved_tokens@[i]@ == k {
                    let i = choose|i: int|
                        0 <= i < p.approved_tokens@.len() && #[trigger] p.approved_tokens@[i]@ == k;
                    assert(self.approved_tokens@.contains_key(approved_tokens@[i]@));
                }
                if m.approved_tokens.contains(k) {
                    assert(self.approved_tokens@.contains_key(k));
                    let i = choose|i: int| 0 <= i < approved_tokens@.len() && #[trigger] approved_tokens@[i]@ == k;
                    assert(p.approved_tokens@[i]@ == k);
                }
            }
            assert forall|k: Seq<char>| m.frozen.contains(k) <==> exists|i: int|
                0 <= i < p.frozen@.len() && #[trigger] p.frozen@[i]@ == k by {
                if exists|i: int| 0 <= i < p.frozen@.len() && #[trigger] p.frozen@[i]@ == k {
                    let i = choose|i: int| 0 <= i < p.frozen@.len() && #[trigger] p.frozen@[i]@ == k;
                    assert(self.frozen@.contains_key(frozen@[i]@));
                }
                if m.frozen.contains(k) {
                    assert(self.frozen@.contains_key(k));
                    let i = choose|i: int| 0 <= i < frozen@.len() && #[trigger] frozen@[i]@ == k;
                    assert(p.frozen@[i]@ == k);
                }
            }
            assert forall|i: int| 0 <= i < p.courses@.len() implies model::course_ok(
                #[trigger] p.courses@[i].id@,
                p.courses@[i],
            ) by {
                assert(p.courses@[i].id@ == course_keys@[i]@);
                assert(m.courses.contains_key(course_keys@[i]@));
            }
            assert forall|i: int| 0 <= i < p.courses@.len() implies #[trigger] p.courses@[i].active_enrollments
                == open_count(p.enrollments@, p.courses@[i].id@) by {
                assert(p.courses@[i].id@ == course_keys@[i]@);
                assert(m.courses.contains_key(course_keys@[i]@));
                lemma_open_count(m.enrollments, p.enrollments@, p.courses@[i].id@);
            }
        }
        p
    }
}

} // verus!
