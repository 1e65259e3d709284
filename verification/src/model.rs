//! The mathematical model of the platform: its state as maps and sets, and
//! for every operation the answer it owes on that state, as a function from
//! the state and the call's arguments to either an error or the next state
//! together with the call's value, authorizations, token movements and notices.

use vstd::prelude::*;
use crate::types::{
    AdminOp, CallContext, Certificate, Course, CourseStatus, Enrollment, Error, Event, Outcome,
    RefundRequest, RefundStatus, Transfer, TreasuryUpdate,
};

verus! {

/// Longest course or certificate identifier, in bytes.
pub const MAX_ID_LEN: u32 = 256;

/// Longest course title, in bytes.
pub const MAX_TITLE_LEN: u32 = 512;

/// Ledgers between a treasury change and the moment it takes effect.
pub const TREASURY_DELAY: u32 = 100;

/// The platform's state.
#[verifier::ext_equal]
pub struct Model {
    pub admin: Option<String>,
    pub secondary_admin: Option<String>,
    pub treasury: Option<String>,
    pub default_fee: u32,
    pub max_courses: u32,
    pub paused: bool,
    pub pending_treasury: Option<TreasuryUpdate>,
    pub pending_admin: Option<String>,
    pub pending_secondary_admin: Option<String>,
    pub min_review_delay: u32,
    pub refund_window: u32,
    /// Courses by identifier.
    pub courses: Map<Seq<char>, Course>,
    /// Enrollments by (student, course identifier).
    pub enrollments: Map<(Seq<char>, Seq<char>), Enrollment>,
    /// Certificates by identifier.
    pub certificates: Map<Seq<char>, Certificate>,
    /// Withdrawable instructor earnings by (instructor, token).
    pub earnings: Map<(Seq<char>, Seq<char>), i128>,
    /// Courses registered, by instructor.
    pub course_counts: Map<Seq<char>, u32>,
    pub approved_tokens: Set<Seq<char>>,
    pub frozen: Set<Seq<char>>,
    /// Course identifiers in registration order.
    pub catalog: Seq<String>,
    /// Refund requests by (student, course identifier).
    pub refunds: Map<(Seq<char>, Seq<char>), RefundRequest>,
}

/// What a successful call produces.
#[verifier::ext_equal]
pub struct Step<T> {
    pub state: Model,
    pub value: T,
    pub auths: Seq<String>,
    pub transfers: Seq<Transfer>,
    pub events: Seq<Event>,
}

/// The model's answer `spec` is what the call did: a success produced the
/// stated state, value, authorizations, movements and notices; a refusal
/// carried the stated error and left the state as it was.
pub open spec fn answers<T>(
    spec: Result<Step<T>, Error>,
    before: Model,
    after: Model,
    r: Result<Outcome<T>, Error>,
) -> bool {
    match r {
        Ok(o) => spec == Ok::<Step<T>, Error>(
            Step {
                state: after,
                value: o.value,
                auths: o.auths@,
                transfers: o.transfers@,
                events: o.events@,
            },
        ),
        Err(e) => spec == Err::<Step<T>, Error>(e) && after == before,
    }
}

/// The view of an optional list.
pub open spec fn opt_seq(o: Option<Vec<String>>) -> Option<Seq<String>> {
    match o {
        Some(v) => Some(v@),
        None => None,
    }
}

/// A success that changes nothing but the state.
pub open spec fn done(state: Model, auths: Seq<String>) -> Result<Step<()>, Error> {
    Ok(Step { state, value: (), auths, transfers: seq![], events: seq![] })
}

/// A success with the state and one notice.
pub open spec fn done_with(state: Model, auths: Seq<String>, ev: Event) -> Result<Step<()>, Error> {
    Ok(Step { state, value: (), auths, transfers: seq![], events: seq![ev] })
}

/// The length of a text in bytes (UTF-8).
pub open spec fn byte_len(s: String) -> nat {
    vstd::utf8::encode_utf8(s@).len()
}

pub open spec fn fits_i128(x: int) -> bool {
    i128::MIN <= x <= i128::MAX
}

/// Integer division by 100 rounding toward zero.
pub open spec fn div100(x: int) -> int {
    if x >= 0 {
        x / 100
    } else {
        -((-x) / 100)
    }
}

/// Splits an amount into the platform's share, `amount * pct / 100`, and the
/// instructor's share, the rest; refused when `amount * pct` overflows.
pub open spec fn fee_split(amount: i128, pct: u32) -> Result<(i128, i128), Error> {
    if fits_i128(amount * pct) && fits_i128(amount - div100(amount * pct)) {
        Ok((div100(amount * pct) as i128, (amount - div100(amount * pct)) as i128))
    } else {
        Err(Error::FeeOverflow)
    }
}

/// Two optional accounts that, when both are set, differ.
pub open spec fn distinct_pair(x: Option<String>, y: Option<String>) -> bool {
    match (x, y) {
        (Some(a), Some(b)) => a@ != b@,
        _ => true,
    }
}

/// The invariant that every operation keeps.
pub open spec fn model_inv(m: Model) -> bool {
    &&& m.default_fee <= 100
    &&& distinct_pair(m.admin, m.secondary_admin)
    &&& distinct_pair(m.pending_admin, m.pending_secondary_admin)
    &&& m.enrollments.dom().finite()
    &&& active_counts_ok(m)
    &&& forall|k: Seq<char>| #[trigger] m.courses.contains_key(k) ==> course_ok(k, m.courses[k])
    &&& forall|k: (Seq<char>, Seq<char>)| #[trigger] m.enrollments.contains_key(k) ==> {
        &&& m.courses.contains_key(k.1)
        &&& m.enrollments[k].student@ == k.0
        &&& m.enrollments[k].course_id@ == k.1
        &&& m.enrollments[k].amount_paid >= 0
    }
    &&& forall|k: (Seq<char>, Seq<char>)| #[trigger] m.earnings.contains_key(k) ==> m.earnings[k] > 0
    &&& forall|k: Seq<char>| #[trigger] m.certificates.contains_key(k) ==> m.certificates[k].id@ == k
    &&& forall|k: (Seq<char>, Seq<char>)| #[trigger] m.refunds.contains_key(k) ==> {
        &&& m.refunds[k].student@ == k.0
        &&& m.refunds[k].course_id@ == k.1
    }
}

pub open spec fn course_ok(k: Seq<char>, c: Course) -> bool {
    &&& c.id@ == k
    &&& c.price >= 0
    &&& c.platform_fee_percent <= 100
    &&& c.active_enrollments <= c.total_enrollments
    &&& c.total_earned >= 0
    &&& c.status == CourseStatus::Archived ==> c.active_enrollments == 0
}

/// The enrollments in course `cid` that are not completed.
pub open spec fn uncompleted(
    es: Map<(Seq<char>, Seq<char>), Enrollment>,
    cid: Seq<char>,
) -> Set<(Seq<char>, Seq<char>)> {
    es.dom().filter(|k: (Seq<char>, Seq<char>)| k.1 == cid && !es[k].completed)
}

/// Each course's active count is the number of its enrollments that are not
/// completed.
pub open spec fn active_counts_ok(m: Model) -> bool {
    forall|k: Seq<char>| #[trigger]
        m.courses.contains_key(k) ==> m.courses[k].active_enrollments == uncompleted(
            m.enrollments,
            k,
        ).len()
}

/// Storing an enrollment changes each course's count of uncompleted
/// enrollments by the entry it adds and the entry it replaces.
pub proof fn lemma_uncompleted_insert(
    es: Map<(Seq<char>, Seq<char>), Enrollment>,
    key: (Seq<char>, Seq<char>),
    e: Enrollment,
)
    requires
        es.dom().finite(),
    ensures
        es.insert(key, e).dom().finite(),
        forall|cid: Seq<char>| #[trigger]
            uncompleted(es.insert(key, e), cid).len() == uncompleted(es, cid).len() + (if key.1
                == cid && !e.completed {
                1int
            } else {
                0int
            }) - (if es.contains_key(key) && key.1 == cid && !es[key].completed {
                1int
            } else {
                0int
            }),
{
    assert forall|cid: Seq<char>| #[trigger]
        uncompleted(es.insert(key, e), cid).len() == uncompleted(es, cid).len() + (if key.1 == cid
            && !e.completed {
            1int
        } else {
            0int
        }) - (if es.contains_key(key) && key.1 == cid && !es[key].completed {
            1int
        } else {
            0int
        }) by {
        let old_set = uncompleted(es, cid);
        let new_set = uncompleted(es.insert(key, e), cid);
        es.dom().lemma_len_filter(|k: (Seq<char>, Seq<char>)| k.1 == cid && !es[k].completed);
        let removed = old_set.remove(key);
        assert(removed.finite());
        if old_set.contains(key) {
            assert(removed.len() == old_set.len() - 1);
        } else {
            assert(removed =~= old_set);
        }
        if key.1 == cid && !e.completed {
            assert(new_set =~= removed.insert(key));
        } else {
            assert(new_set =~= removed);
        }
    }
}

/// Removing an enrollment lowers its course's count of uncompleted
/// enrollments when it was not completed, and changes no other count.
pub proof fn lemma_uncompleted_remove(
    es: Map<(Seq<char>, Seq<char>), Enrollment>,
    key: (Seq<char>, Seq<char>),
)
    requires
        es.dom().finite(),
    ensures
        es.remove(key).dom().finite(),
        forall|cid: Seq<char>| #[trigger]
            uncompleted(es.remove(key), cid).len() == uncompleted(es, cid).len() - (if es.contains_key(
                key,
            ) && key.1 == cid && !es[key].completed {
                1int
            } else {
                0int
            }),
{
    assert forall|cid: Seq<char>| #[trigger]
        uncompleted(es.remove(key), cid).len() == uncompleted(es, cid).len() - (if es.contains_key(
            key,
        ) && key.1 == cid && !es[key].completed {
            1int
        } else {
            0int
        }) by {
        let old_set = uncompleted(es, cid);
        es.dom().lemma_len_filter(|k: (Seq<char>, Seq<char>)| k.1 == cid && !es[k].completed);
        assert(uncompleted(es.remove(key), cid) =~= old_set.remove(key));
        if !old_set.contains(key) {
            assert(old_set.remove(key) =~= old_set);
        }
    }
}

pub open spec fn initial_model() -> Model {
    Model {
        admin: None,
        secondary_admin: None,
        treasury: None,
        default_fee: 20,
        max_courses: 50,
        paused: false,
        pending_treasury: None,
        pending_admin: None,
        pending_secondary_admin: None,
        min_review_delay: 0,
        refund_window: 0,
        courses: Map::empty(),
        enrollments: Map::empty(),
        certificates: Map::empty(),
        earnings: Map::empty(),
        course_counts: Map::empty(),
        approved_tokens: Set::empty(),
        frozen: Set::empty(),
        catalog: seq![],
        refunds: Map::empty(),
    }
}

// ------------------------------------------------------------------
// Reads
// ------------------------------------------------------------------

pub open spec fn is_admin(m: Model, caller: String) -> bool {
    m.admin matches Some(a) && a@ == caller@
}

pub open spec fn admin_check(m: Model, caller: String, op: AdminOp) -> Option<Error> {
    if is_admin(m, caller) {
        None
    } else {
        Some(Error::NotAdmin(op))
    }
}

/// Both admins, in either order.
pub open spec fn multi_admin_check(m: Model, a1: String, a2: String) -> Option<Error> {
    match (m.admin, m.secondary_admin) {
        (Some(a), Some(s)) => if (a1@ == a@ && a2@ == s@) || (a1@ == s@ && a2@ == a@) {
            None
        } else {
            Some(Error::NotBothAdmins)
        },
        _ => Some(Error::NotInitialized),
    }
}

pub open spec fn earnings_of(m: Model, instructor: String, token: String) -> i128 {
    if m.earnings.contains_key((instructor@, token@)) {
        m.earnings[(instructor@, token@)]
    } else {
        0
    }
}

pub open spec fn count_of(m: Model, instructor: String) -> u32 {
    if m.course_counts.contains_key(instructor@) {
        m.course_counts[instructor@]
    } else {
        0
    }
}

/// Sets an instructor's balance; a zero balance is no entry.
pub open spec fn set_earnings(m: Model, instructor: String, token: String, v: i128) -> Model {
    if v == 0 {
        Model { earnings: m.earnings.remove((instructor@, token@)), ..m }
    } else {
        Model { earnings: m.earnings.insert((instructor@, token@), v), ..m }
    }
}

/// A certificate is valid when it exists, is not revoked and has not expired.
pub open spec fn certificate_valid(m: Model, sequence: u32, id: String) -> bool {
    &&& m.certificates.contains_key(id@)
    &&& !m.certificates[id@].revoked
    &&& match m.certificates[id@].expires_at_ledger {
        Some(e) => sequence < e,
        None => true,
    }
}

pub open spec fn has_completed(m: Model, student: String, course_id: String) -> bool {
    m.enrollments.contains_key((student@, course_id@)) && m.enrollments[(
    student@,
    course_id@,
    )].completed
}

/// One page of the catalog: the identifiers from position
/// `min(offset, n)` up to `min(offset + limit, n)`, where `n` is the
/// catalog's length; empty when `offset` is past the end.
pub open spec fn list_courses(m: Model, offset: u32, limit: u32) -> Seq<String> {
    let start = vstd::math::min(offset as int, m.catalog.len() as int);
    let end = vstd::math::min(start + limit, m.catalog.len() as int);
    m.catalog.subrange(start, end)
}

pub open spec fn enrollment_visible_check(
    m: Model,
    caller: String,
    student: String,
    course_id: String,
) -> Option<Error> {
    if !m.courses.contains_key(course_id@) {
        Some(Error::CourseNotFound)
    } else if caller@ != student@ && !is_admin(m, caller) && caller@
        != m.courses[course_id@].instructor@ {
        Some(Error::Unauthorized)
    } else {
        None
    }
}

/// Reading an enrollment: the student, an admin or the course's instructor.
pub open spec fn get_enrollment(m: Model, caller: String, student: String, course_id: String) -> Result<
    Step<Option<Enrollment>>,
    Error,
> {
    match enrollment_visible_check(m, caller, student, course_id) {
        Some(e) => Err(e),
        None => Ok(
            Step {
                state: m,
                value: if m.enrollments.contains_key((student@, course_id@)) {
                    Some(m.enrollments[(student@, course_id@)])
                } else {
                    None
                },
                auths: seq![caller],
                transfers: seq![],
                events: seq![],
            },
        ),
    }
}

// ------------------------------------------------------------------
// Setup and governance
// ------------------------------------------------------------------

pub open spec fn init(
    m: Model,
    ctx: CallContext,
    admin: String,
    secondary_admin: String,
    treasury: String,
    default_fee_pct: u32,
    max_courses_per_instructor: u32,
) -> Result<Step<()>, Error> {
    if m.admin is Some {
        Err(Error::AlreadyInitialized)
    } else if default_fee_pct > 100 {
        Err(Error::FeeTooHigh)
    } else if treasury@ == ctx.contract@ {
        Err(Error::TreasuryIsContract)
    } else if admin@ == treasury@ {
        Err(Error::AdminIsTreasury)
    } else if secondary_admin@ == treasury@ {
        Err(Error::SecondaryAdminIsTreasury)
    } else if admin@ == secondary_admin@ {
        Err(Error::AdminsNotDistinct)
    } else {
        done_with(
            Model {
                admin: Some(admin),
                secondary_admin: Some(secondary_admin),
                treasury: Some(treasury),
                paused: false,
                default_fee: default_fee_pct,
                max_courses: max_courses_per_instructor,
                ..m
            },
            seq![admin],
            Event::PlatformInitialized {
                admin,
                secondary_admin,
                treasury,
                default_fee: default_fee_pct,
                ledger: ctx.sequence,
            },
        )
    }
}

/// An operation that only an admin may perform and that only changes the state.
pub open spec fn admin_update(m: Model, admin: String, op: AdminOp, next: Model) -> Result<
    Step<()>,
    Error,
> {
    match admin_check(m, admin, op) {
        Some(e) => Err(e),
        None => done(next, seq![admin]),
    }
}

/// An operation that only an admin may perform, that changes the state and
/// publishes one notice.
pub open spec fn admin_update_with(
    m: Model,
    admin: String,
    op: AdminOp,
    next: Model,
    ev: Event,
) -> Result<Step<()>, Error> {
    match admin_check(m, admin, op) {
        Some(e) => Err(e),
        None => done_with(next, seq![admin], ev),
    }
}

pub open spec fn pause_platform(m: Model, ctx: CallContext, admin: String) -> Result<Step<()>, Error> {
    admin_update_with(
        m,
        admin,
        AdminOp::PausePlatform,
        Model { paused: true, ..m },
        Event::PlatformPaused { admin, ledger: ctx.sequence },
    )
}

pub open spec fn unpause_platform(m: Model, ctx: CallContext, admin: String) -> Result<
    Step<()>,
    Error,
> {
    admin_update_with(
        m,
        admin,
        AdminOp::UnpausePlatform,
        Model { paused: false, ..m },
        Event::PlatformUnpaused { admin, ledger: ctx.sequence },
    )
}

pub open spec fn update_default_fee(m: Model, ctx: CallContext, admin: String, fee: u32) -> Result<
    Step<()>,
    Error,
> {
    match admin_check(m, admin, AdminOp::UpdateDefaultFee) {
        Some(e) => Err(e),
        None => if fee > 100 {
            Err(Error::FeeTooHigh)
        } else {
            done_with(
                Model { default_fee: fee, ..m },
                seq![admin],
                Event::DefaultFeeUpdated { admin, fee_percent: fee, ledger: ctx.sequence },
            )
        },
    }
}

pub open spec fn add_approved_token(m: Model, ctx: CallContext, admin: String, token: String) -> Result<
    Step<()>,
    Error,
> {
    admin_update_with(
        m,
        admin,
        AdminOp::AddApprovedToken,
        Model { approved_tokens: m.approved_tokens.insert(token@), ..m },
        Event::TokenWhitelisted { admin, token, ledger: ctx.sequence },
    )
}

pub open spec fn remove_approved_token(
    m: Model,
    ctx: CallContext,
    admin: String,
    token: String,
) -> Result<Step<()>, Error> {
    admin_update_with(
        m,
        admin,
        AdminOp::RemoveApprovedToken,
        Model { approved_tokens: m.approved_tokens.remove(token@), ..m },
        Event::TokenRemovedFromWhitelist { admin, token, ledger: ctx.sequence },
    )
}

pub open spec fn update_max_courses_limit(m: Model, admin: String, new_max: u32) -> Result<
    Step<()>,
    Error,
> {
    admin_update(m, admin, AdminOp::UpdateMaxCoursesLimit, Model { max_courses: new_max, ..m })
}

pub open spec fn update_min_review_delay(m: Model, admin: String, delay: u32) -> Result<
    Step<()>,
    Error,
> {
    admin_update(m, admin, AdminOp::UpdateMinReviewDelay, Model { min_review_delay: delay, ..m })
}

pub open spec fn update_refund_window(m: Model, admin: String, window: u32) -> Result<
    Step<()>,
    Error,
> {
    admin_update(m, admin, AdminOp::UpdateRefundWindow, Model { refund_window: window, ..m })
}

pub open spec fn freeze_instructor(m: Model, admin: String, instructor: String) -> Result<
    Step<()>,
    Error,
> {
    match admin_check(m, admin, AdminOp::FreezeInstructor) {
        Some(e) => Err(e),
        None => done_with(
            Model { frozen: m.frozen.insert(instructor@), ..m },
            seq![admin],
            Event::InstructorFrozen { instructor },
        ),
    }
}

pub open spec fn unfreeze_instructor(m: Model, admin: String, instructor: String) -> Result<
    Step<()>,
    Error,
> {
    match admin_check(m, admin, AdminOp::UnfreezeInstructor) {
        Some(e) => Err(e),
        None => done_with(
            Model { frozen: m.frozen.remove(instructor@), ..m },
            seq![admin],
            Event::InstructorUnfrozen { instructor },
        ),
    }
}

pub open spec fn withdraw_tokens(
    m: Model,
    ctx: CallContext,
    admin: String,
    token: String,
    amount: i128,
    destination: String,
) -> Result<Step<()>, Error> {
    match admin_check(m, admin, AdminOp::WithdrawTokens) {
        Some(e) => Err(e),
        None => Ok(
            Step {
                state: m,
                value: (),
                auths: seq![admin],
                transfers: seq![Transfer { token, from: ctx.contract, to: destination, amount }],
                events: seq![
                    Event::TokensWithdrawn { admin, token, amount, destination, ledger: ctx.sequence },
                ],
            },
        ),
    }
}

pub open spec fn transfer_admin(
    m: Model,
    ctx: CallContext,
    admin1: String,
    admin2: String,
    new_admin: String,
    new_secondary_admin: String,
) -> Result<Step<()>, Error> {
    match multi_admin_check(m, admin1, admin2) {
        Some(e) => Err(e),
        None => if new_admin@ == m.admin.unwrap()@ && new_secondary_admin@
            == m.secondary_admin.unwrap()@ {
            Err(Error::SameAdmins)
        } else if new_admin@ == new_secondary_admin@ {
            Err(Error::AdminsNotDistinct)
        } else {
            done_with(
                Model {
                    pending_admin: Some(new_admin),
                    pending_secondary_admin: Some(new_secondary_admin),
                    ..m
                },
                seq![admin1, admin2],
                Event::AdminTransferProposed {
                    admin1,
                    admin2,
                    new_admin,
                    new_secondary_admin,
                    ledger: ctx.sequence,
                },
            )
        },
    }
}

pub open spec fn accept_admin(
    m: Model,
    ctx: CallContext,
    new_admin: String,
    new_secondary_admin: String,
) -> Result<Step<()>, Error> {
    match (m.pending_admin, m.pending_secondary_admin) {
        (None, _) => Err(Error::NoPendingAdmin),
        (Some(_), None) => Err(Error::NoPendingSecondaryAdmin),
        (Some(p), Some(ps)) => if p@ != new_admin@ || ps@ != new_secondary_admin@ {
            Err(Error::NotPendingAdmins)
        } else {
            match m.admin {
                None => Err(Error::AdminNotSet),
                Some(prev) => done_with(
                    Model {
                        admin: Some(new_admin),
                        secondary_admin: Some(new_secondary_admin),
                        pending_admin: None,
                        pending_secondary_admin: None,
                        ..m
                    },
                    seq![new_admin, new_secondary_admin],
                    Event::AdminTransferred {
                        previous_admin: prev,
                        new_admin,
                        ledger: ctx.sequence,
                    },
                ),
            }
        },
    }
}

pub open spec fn update_treasury(
    m: Model,
    ctx: CallContext,
    admin1: String,
    admin2: String,
    new_treasury: String,
) -> Result<Step<()>, Error> {
    match multi_admin_check(m, admin1, admin2) {
        Some(e) => Err(e),
        None => if new_treasury@ == ctx.contract@ {
            Err(Error::TreasuryIsContract)
        } else if new_treasury@ == m.admin.unwrap()@ {
            Err(Error::TreasuryIsAdmin)
        } else if new_treasury@ == m.secondary_admin.unwrap()@ {
            Err(Error::TreasuryIsSecondaryAdmin)
        } else if ctx.sequence + TREASURY_DELAY > u32::MAX {
            Err(Error::LedgerOverflow)
        } else {
            done_with(
                Model {
                    pending_treasury: Some(
                        TreasuryUpdate {
                            address: new_treasury,
                            effective_ledger: (ctx.sequence + TREASURY_DELAY) as u32,
                        },
                    ),
                    ..m
                },
                seq![admin1, admin2],
                Event::TreasuryUpdated {
                    admin1,
                    admin2,
                    new_treasury,
                    effective_ledger: (ctx.sequence + TREASURY_DELAY) as u32,
                    ledger: ctx.sequence,
                },
            )
        },
    }
}

// ------------------------------------------------------------------
// Courses
// ------------------------------------------------------------------

/// The fee a new course gets: the default when none is asked for, else the
/// one asked for, which must lie between the default and 100.
pub open spec fn course_fee(m: Model, platform_fee_pct: u32) -> Result<u32, Error> {
    if platform_fee_pct == 0 {
        Ok(m.default_fee)
    } else if platform_fee_pct > 100 {
        Err(Error::FeeTooHigh)
    } else if platform_fee_pct < m.default_fee {
        Err(Error::FeeBelowMinimum)
    } else {
        Ok(platform_fee_pct)
    }
}

pub open spec fn register_course(
    m: Model,
    ctx: CallContext,
    instructor: String,
    course_id: String,
    price: i128,
    token: String,
    platform_fee_pct: u32,
    max_capacity: Option<u32>,
) -> Result<Step<String>, Error> {
    if m.frozen.contains(instructor@) {
        Err(Error::InstructorFrozen)
    } else if byte_len(course_id) > MAX_ID_LEN {
        Err(Error::CourseIdTooLong)
    } else if price < 0 {
        Err(Error::NegativePrice)
    } else if m.courses.contains_key(course_id@) {
        Err(Error::CourseAlreadyRegistered)
    } else if count_of(m, instructor) >= m.max_courses {
        Err(Error::CourseLimitReached)
    } else {
        match course_fee(m, platform_fee_pct) {
            Err(e) => Err(e),
            Ok(fee) => if !m.approved_tokens.contains(token@) {
                Err(Error::TokenNotApproved)
            } else {
                let course = Course {
                    id: course_id,
                    instructor,
                    price,
                    platform_fee_percent: fee,
                    token,
                    total_enrollments: 0,
                    active_enrollments: 0,
                    total_earned: 0,
                    status: CourseStatus::Pending,
                    created_at_ledger: ctx.sequence,
                    max_capacity,
                };
                Ok(
                    Step {
                        state: Model {
                            courses: m.courses.insert(course_id@, course),
                            catalog: m.catalog.push(course_id),
                            course_counts: m.course_counts.insert(
                                instructor@,
                                (count_of(m, instructor) + 1) as u32,
                            ),
                            ..m
                        },
                        value: course_id,
                        auths: seq![instructor],
                        transfers: seq![],
                        events: seq![
                            Event::CourseRegistered {
                                instructor,
                                course_id,
                                price,
                                token,
                                fee_percent: fee,
                                ledger: ctx.sequence,
                            },
                        ],
                    },
                )
            },
        }
    }
}

pub open spec fn with_status(c: Course, s: CourseStatus) -> Course {
    Course { status: s, ..c }
}

pub open spec fn approve_course(m: Model, ctx: CallContext, admin: String, course_id: String) -> Result<
    Step<()>,
    Error,
> {
    match admin_check(m, admin, AdminOp::ApproveCourse) {
        Some(e) => Err(e),
        None => if !m.courses.contains_key(course_id@) {
            Err(Error::CourseNotFound)
        } else {
            let c = m.courses[course_id@];
            if c.status != CourseStatus::Pending {
                Err(Error::CourseNotPending)
            } else if (ctx.sequence as int) < c.created_at_ledger + m.min_review_delay {
                Err(Error::ReviewPeriodNotElapsed)
            } else {
                done_with(
                    Model {
                        courses: m.courses.insert(
                            course_id@,
                            with_status(c, CourseStatus::Active),
                        ),
                        ..m
                    },
                    seq![admin],
                    Event::CourseApproved { admin, course_id, ledger: ctx.sequence },
                )
            }
        },
    }
}

/// Pausing and unpausing: by an admin or the course's instructor, from one
/// status to the other.
pub open spec fn toggle_course(
    m: Model,
    caller: String,
    course_id: String,
    from: CourseStatus,
    to: CourseStatus,
    wrong_status: Error,
    ev: Event,
) -> Result<Step<()>, Error> {
    if !m.courses.contains_key(course_id@) {
        Err(Error::CourseNotFound)
    } else {
        let c = m.courses[course_id@];
        if !is_admin(m, caller) && caller@ != c.instructor@ {
            Err(Error::Unauthorized)
        } else if c.status != from {
            Err(wrong_status)
        } else {
            done_with(
                Model { courses: m.courses.insert(course_id@, with_status(c, to)), ..m },
                seq![caller],
                ev,
            )
        }
    }
}

pub open spec fn pause_course(m: Model, ctx: CallContext, caller: String, course_id: String) -> Result<
    Step<()>,
    Error,
> {
    toggle_course(
        m,
        caller,
        course_id,
        CourseStatus::Active,
        CourseStatus::Paused,
        Error::CourseNotActive,
        Event::CoursePaused { caller, course_id, ledger: ctx.sequence },
    )
}

pub open spec fn unpause_course(m: Model, ctx: CallContext, caller: String, course_id: String) -> Result<
    Step<()>,
    Error,
> {
    toggle_course(
        m,
        caller,
        course_id,
        CourseStatus::Paused,
        CourseStatus::Active,
        Error::CourseNotPaused,
        Event::CourseUnpaused { caller, course_id, ledger: ctx.sequence },
    )
}

/// Pays one enrollment back: the platform's share from the treasury, the
/// instructor's share from the instructor's withdrawable earnings.
pub open spec fn refund_payment(
    m: Model,
    ctx: CallContext,
    course: Course,
    treasury: String,
    student: String,
    amount: i128,
) -> Result<(Model, Seq<Transfer>), Error> {
    match fee_split(amount, course.platform_fee_percent) {
        Err(e) => Err(e),
        Ok((platform, instructor_part)) => {
            let t1 = if platform > 0 {
                seq![
                    Transfer {
                        token: course.token,
                        from: treasury,
                        to: student,
                        amount: platform,
                    },
                ]
            } else {
                Seq::<Transfer>::empty()
            };
            if instructor_part > 0 {
                let bal = earnings_of(m, course.instructor, course.token);
                if instructor_part > bal {
                    Err(Error::InsufficientEarningsForRefund)
                } else {
                    Ok(
                        (
                            set_earnings(
                                m,
                                course.instructor,
                                course.token,
                                (bal - instructor_part) as i128,
                            ),
                            t1.push(
                                Transfer {
                                    token: course.token,
                                    from: ctx.contract,
                                    to: student,
                                    amount: instructor_part,
                                },
                            ),
                        ),
                    )
                }
            } else {
                Ok((m, t1))
            }
        },
    }
}

pub open spec fn less_active(c: Course) -> Course {
    Course {
        active_enrollments: if c.active_enrollments > 0 {
            (c.active_enrollments - 1) as u32
        } else {
            0
        },
        ..c
    }
}

/// What refunding a list of students produced: the state, the course, the
/// token movements, how many students were refunded and the total refunded.
pub struct Refunded {
    pub state: Model,
    pub course: Course,
    pub transfers: Seq<Transfer>,
    pub count: nat,
    pub total: int,
}

/// Refunds the listed students, in order, who hold an enrollment in the
/// course that is not completed, removes those enrollments and lowers the
/// course's active count for each; refused when the running total of the
/// refunds leaves the 128-bit range.
pub open spec fn archive_refunds(
    m: Model,
    ctx: CallContext,
    course_id: String,
    course: Course,
    treasury: String,
    students: Seq<String>,
) -> Result<Refunded, Error>
    decreases students.len(),
{
    if students.len() == 0 {
        Ok(Refunded { state: m, course, transfers: seq![], count: 0, total: 0 })
    } else {
        match archive_refunds(m, ctx, course_id, course, treasury, students.drop_last()) {
            Err(e) => Err(e),
            Ok(r) => {
                let m1 = r.state;
                let c1 = r.course;
                let s = students.last();
                let key = (s@, course_id@);
                if m1.enrollments.contains_key(key) && !m1.enrollments[key].completed {
                    let amount = m1.enrollments[key].amount_paid;
                    match refund_payment(m1, ctx, c1, treasury, s, amount) {
                        Err(e) => Err(e),
                        Ok((m2, ts2)) => if !fits_i128(r.total + amount) {
                            Err(Error::RefundTotalOverflow)
                        } else {
                            Ok(
                                Refunded {
                                    state: Model {
                                        enrollments: m2.enrollments.remove(key),
                                        courses: m2.courses.insert(course_id@, less_active(c1)),
                                        ..m2
                                    },
                                    course: less_active(c1),
                                    transfers: r.transfers + ts2,
                                    count: r.count + 1,
                                    total: r.total + amount,
                                },
                            )
                        },
                    }
                } else {
                    Ok(r)
                }
            },
        }
    }
}

pub open spec fn archive_course(
    m: Model,
    ctx: CallContext,
    admin1: String,
    admin2: String,
    course_id: String,
    students_to_refund: Option<Seq<String>>,
) -> Result<Step<()>, Error> {
    match multi_admin_check(m, admin1, admin2) {
        Some(e) => Err(e),
        None => if !m.courses.contains_key(course_id@) {
            Err(Error::CourseNotFound)
        } else if m.courses[course_id@].status != CourseStatus::Paused {
            Err(Error::MustBePausedToArchive)
        } else {
            let c = m.courses[course_id@];
            let none = Refunded { state: m, course: c, transfers: seq![], count: 0, total: 0 };
            let refunded: Result<Refunded, Error> = match students_to_refund {
                None => Ok(none),
                Some(students) => match m.treasury {
                    None => Err(Error::TreasuryNotSet),
                    Some(t) => archive_refunds(m, ctx, course_id, c, t, students),
                },
            };
            match refunded {
                Err(e) => Err(e),
                Ok(r) => if r.course.active_enrollments > 0 {
                    Err(Error::ActiveEnrollmentsRemain)
                } else {
                    Ok(
                        Step {
                            state: Model {
                                courses: r.state.courses.insert(
                                    course_id@,
                                    with_status(r.course, CourseStatus::Archived),
                                ),
                                ..r.state
                            },
                            value: (),
                            auths: seq![admin1, admin2],
                            transfers: r.transfers,
                            events: seq![
                                Event::CourseArchived {
                                    admin1,
                                    admin2,
                                    course_id,
                                    refund_count: r.count as u32,
                                    total_refunded: r.total as i128,
                                    ledger: ctx.sequence,
                                },
                            ],
                        },
                    )
                },
            }
        },
    }
}

// ------------------------------------------------------------------
// Enrollment and payment
// ------------------------------------------------------------------

/// Why a student cannot enroll in a course now, if a reason exists.
pub open spec fn enrollment_check(m: Model, student: String, course_id: String) -> Option<Error> {
    if m.paused {
        Some(Error::PlatformPaused)
    } else if !m.courses.contains_key(course_id@) {
        Some(Error::CourseNotFound)
    } else {
        let c = m.courses[course_id@];
        if m.frozen.contains(c.instructor@) {
            Some(Error::InstructorFrozen)
        } else if student@ == c.instructor@ {
            Some(Error::SelfEnrollment)
        } else if c.status != CourseStatus::Active {
            Some(Error::CourseNotAvailable)
        } else if m.enrollments.contains_key((student@, course_id@)) {
            Some(Error::AlreadyEnrolled)
        } else if c.max_capacity matches Some(cap) && c.total_enrollments >= cap {
            Some(Error::CapacityReached)
        } else if !m.approved_tokens.contains(c.token@) {
            Some(Error::TokenNotApproved)
        } else {
            None
        }
    }
}

/// The treasury that receives fees now: a pending change takes effect from
/// its effective ledger on.
pub open spec fn current_treasury(m: Model, ctx: CallContext) -> Option<(Model, String)> {
    match m.treasury {
        None => None,
        Some(t) => match m.pending_treasury {
            Some(p) => if ctx.sequence >= p.effective_ledger {
                Some((Model { treasury: Some(p.address), pending_treasury: None, ..m }, p.address))
            } else {
                Some((m, t))
            },
            None => Some((m, t)),
        },
    }
}

/// One enrollment: the student pays the price to the platform, the
/// platform's share goes on to the treasury and the rest is credited to the
/// instructor's withdrawable earnings.
pub open spec fn enroll_step(m: Model, ctx: CallContext, student: String, course_id: String) -> Result<
    (Model, Seq<Transfer>, Event),
    Error,
> {
    match enrollment_check(m, student, course_id) {
        Some(e) => Err(e),
        None => {
            let c = m.courses[course_id@];
            match fee_split(c.price, c.platform_fee_percent) {
                Err(e) => Err(e),
                Ok((platform, instructor_part)) => match current_treasury(m, ctx) {
                    None => Err(Error::TreasuryNotSet),
                    Some((m1, treasury)) => {
                        let bal = earnings_of(m1, c.instructor, c.token);
                        let credit = c.price > 0 && instructor_part > 0;
                        if credit && !fits_i128(bal + instructor_part) {
                            Err(Error::EarningsOverflow)
                        } else if c.total_enrollments + 1 > u32::MAX {
                            Err(Error::EnrollmentCountOverflow)
                        } else if c.active_enrollments + 1 > u32::MAX {
                            Err(Error::ActiveCountOverflow)
                        } else if !fits_i128(c.total_earned + c.price) {
                            Err(Error::TotalEarnedOverflow)
                        } else {
                            let m2 = if credit {
                                set_earnings(
                                    m1,
                                    c.instructor,
                                    c.token,
                                    (bal + instructor_part) as i128,
                                )
                            } else {
                                m1
                            };
                            let transfers = if c.price > 0 {
                                seq![
                                    Transfer {
                                        token: c.token,
                                        from: student,
                                        to: ctx.contract,
                                        amount: c.price,
                                    },
                                ] + if platform > 0 {
                                    seq![
                                        Transfer {
                                            token: c.token,
                                            from: ctx.contract,
                                            to: treasury,
                                            amount: platform,
                                        },
                                    ]
                                } else {
                                    Seq::<Transfer>::empty()
                                }
                            } else {
                                Seq::<Transfer>::empty()
                            };
                            let enrollment = Enrollment {
                                student,
                                course_id,
                                amount_paid: c.price,
                                enrolled_at_ledger: ctx.sequence,
                                completed: false,
                                certificate_issued: false,
                                certificate_id: None,
                                evidence_hash: None,
                            };
                            let c2 = Course {
                                total_enrollments: (c.total_enrollments + 1) as u32,
                                active_enrollments: (c.active_enrollments + 1) as u32,
                                total_earned: (c.total_earned + c.price) as i128,
                                ..c
                            };
                            Ok(
                                (
                                    Model {
                                        enrollments: m2.enrollments.insert(
                                            (student@, course_id@),
                                            enrollment,
                                        ),
                                        courses: m2.courses.insert(course_id@, c2),
                                        ..m2
                                    },
                                    transfers,
                                    Event::StudentEnrolled {
                                        student,
                                        course_id,
                                        amount_paid: c.price,
                                        platform_fee: platform,
                                        instructor_fee: instructor_part,
                                        ledger: ctx.sequence,
                                    },
                                ),
                            )
                        }
                    },
                },
            }
        },
    }
}

pub open spec fn enroll(m: Model, ctx: CallContext, student: String, course_id: String) -> Result<
    Step<()>,
    Error,
> {
    match enroll_step(m, ctx, student, course_id) {
        Err(e) => Err(e),
        Ok((m1, ts, ev)) => Ok(
            Step { state: m1, value: (), auths: seq![student], transfers: ts, events: seq![ev] },
        ),
    }
}

pub open spec fn has_duplicate(ids: Seq<String>) -> bool {
    exists|i: int, j: int| 0 <= i < j < ids.len() && ids[i]@ == ids[j]@
}

/// The first reason, in list order, why one of the courses refuses the student.
pub open spec fn first_enrollment_error(m: Model, student: String, ids: Seq<String>) -> Option<
    Error,
>
    decreases ids.len(),
{
    if ids.len() == 0 {
        None
    } else {
        match first_enrollment_error(m, student, ids.drop_last()) {
            Some(e) => Some(e),
            None => enrollment_check(m, student, ids.last()),
        }
    }
}

/// Enrolls in the courses one after the other.
pub open spec fn enroll_all(m: Model, ctx: CallContext, student: String, ids: Seq<String>) -> Result<
    (Model, Seq<Transfer>, Seq<Event>),
    Error,
>
    decreases ids.len(),
{
    if ids.len() == 0 {
        Ok((m, seq![], seq![]))
    } else {
        match enroll_all(m, ctx, student, ids.drop_last()) {
            Err(e) => Err(e),
            Ok((m1, ts, es)) => match enroll_step(m1, ctx, student, ids.last()) {
                Err(e) => Err(e),
                Ok((m2, ts2, ev)) => Ok((m2, ts + ts2, es.push(ev))),
            },
        }
    }
}

pub open spec fn batch_enroll(m: Model, ctx: CallContext, student: String, ids: Seq<String>) -> Result<
    Step<()>,
    Error,
> {
    if ids.len() == 0 {
        Err(Error::EmptyBatch)
    } else if has_duplicate(ids) {
        Err(Error::DuplicateInBatch)
    } else {
        match first_enrollment_error(m, student, ids) {
            Some(e) => Err(e),
            None => match enroll_all(m, ctx, student, ids) {
                Err(e) => Err(e),
                Ok((m1, ts, es)) => Ok(
                    Step { state: m1, value: (), auths: seq![student], transfers: ts, events: es },
                ),
            },
        }
    }
}

pub open spec fn withdraw_earnings(
    m: Model,
    ctx: CallContext,
    instructor: String,
    token: String,
    amount: i128,
) -> Result<Step<()>, Error> {
    if amount < 0 {
        Err(Error::NegativeWithdrawal)
    } else {
        let bal = earnings_of(m, instructor, token);
        let w = if amount == 0 {
            bal
        } else {
            amount
        };
        if w == 0 {
            done(m, seq![instructor])
        } else if w > bal {
            Err(Error::InsufficientEarnings)
        } else {
            Ok(
                Step {
                    state: set_earnings(m, instructor, token, (bal - w) as i128),
                    value: (),
                    auths: seq![instructor],
                    transfers: seq![
                        Transfer { token, from: ctx.contract, to: instructor, amount: w },
                    ],
                    events: seq![Event::EarningsWithdrawn { instructor, token, amount: w }],
                },
            )
        }
    }
}

// ------------------------------------------------------------------
// Refund requests
// ------------------------------------------------------------------

pub open spec fn request_refund(m: Model, ctx: CallContext, student: String, course_id: String) -> Result<
    Step<()>,
    Error,
> {
    let key = (student@, course_id@);
    if !m.enrollments.contains_key(key) {
        Err(Error::EnrollmentNotFound)
    } else if m.refunds.contains_key(key) && m.refunds[key].status == RefundStatus::Pending {
        Err(Error::RefundAlreadyRequested)
    } else if ctx.sequence > m.enrollments[key].enrolled_at_ledger + m.refund_window {
        Err(Error::RefundWindowExpired)
    } else {
        done(
            Model {
                refunds: m.refunds.insert(
                    key,
                    RefundRequest {
                        student,
                        course_id,
                        amount: m.enrollments[key].amount_paid,
                        requested_at_ledger: ctx.sequence,
                        status: RefundStatus::Pending,
                    },
                ),
                ..m
            },
            seq![student],
        )
    }
}

pub open spec fn with_refund_status(r: RefundRequest, s: RefundStatus) -> RefundRequest {
    RefundRequest { status: s, ..r }
}

pub open spec fn process_refund(
    m: Model,
    ctx: CallContext,
    admin: String,
    student: String,
    course_id: String,
    approve: bool,
) -> Result<Step<()>, Error> {
    let key = (student@, course_id@);
    match admin_check(m, admin, AdminOp::ProcessRefund) {
        Some(e) => Err(e),
        None => if !m.refunds.contains_key(key) {
            Err(Error::RefundRequestNotFound)
        } else if m.refunds[key].status != RefundStatus::Pending {
            Err(Error::RefundNotPending)
        } else if !approve {
            done(
                Model {
                    refunds: m.refunds.insert(
                        key,
                        with_refund_status(m.refunds[key], RefundStatus::Rejected),
                    ),
                    ..m
                },
                seq![admin],
            )
        } else if !m.enrollments.contains_key(key) {
            Err(Error::EnrollmentNotFound)
        } else if !m.courses.contains_key(course_id@) {
            Err(Error::CourseNotFound)
        } else {
            match m.treasury {
                None => Err(Error::TreasuryNotSet),
                Some(t) => {
                    let c = m.courses[course_id@];
                    let e = m.enrollments[key];
                    match refund_payment(m, ctx, c, t, student, e.amount_paid) {
                        Err(err) => Err(err),
                        Ok((m1, ts)) => {
                            let c1 = if e.completed {
                                c
                            } else {
                                less_active(c)
                            };
                            Ok(
                                Step {
                                    state: Model {
                                        enrollments: m1.enrollments.remove(key),
                                        courses: m1.courses.insert(course_id@, c1),
                                        refunds: m1.refunds.insert(
                                            key,
                                            with_refund_status(
                                                m.refunds[key],
                                                RefundStatus::Approved,
                                            ),
                                        ),
                                        ..m1
                                    },
                                    value: (),
                                    auths: seq![admin],
                                    transfers: ts,
                                    events: seq![],
                                },
                            )
                        },
                    }
                },
            }
        },
    }
}

// ------------------------------------------------------------------
// Completion and certificates
// ------------------------------------------------------------------

pub open spec fn mark_completed(
    m: Model,
    ctx: CallContext,
    admin: String,
    student: String,
    course_id: String,
    evidence_hash: Option<String>,
) -> Result<Step<()>, Error> {
    let key = (student@, course_id@);
    match admin_check(m, admin, AdminOp::MarkCompleted) {
        Some(e) => Err(e),
        None => if !m.enrollments.contains_key(key) {
            Err(Error::EnrollmentNotFound)
        } else if m.enrollments[key].completed {
            Err(Error::AlreadyCompleted)
        } else if !m.courses.contains_key(course_id@) {
            Err(Error::CourseNotFound)
        } else {
            let e = Enrollment { completed: true, evidence_hash, ..m.enrollments[key] };
            done_with(
                Model {
                    enrollments: m.enrollments.insert(key, e),
                    courses: m.courses.insert(course_id@, less_active(m.courses[course_id@])),
                    ..m
                },
                if evidence_hash is None {
                    seq![admin, student]
                } else {
                    seq![admin]
                },
                Event::CourseCompleted {
                    admin,
                    student,
                    course_id,
                    has_evidence: evidence_hash is Some,
                    ledger: ctx.sequence,
                },
            )
        },
    }
}

pub open spec fn issue_certificate(
    m: Model,
    ctx: CallContext,
    admin: String,
    certificate_id: String,
    student: String,
    course_id: String,
    course_title: String,
    enrollment_reference: String,
    expires_at_ledger: Option<u32>,
) -> Result<Step<String>, Error> {
    let key = (student@, course_id@);
    match admin_check(m, admin, AdminOp::IssueCertificate) {
        Some(e) => Err(e),
        None => if byte_len(certificate_id) > MAX_ID_LEN {
            Err(Error::CertificateIdTooLong)
        } else if byte_len(course_title) > MAX_TITLE_LEN {
            Err(Error::CourseTitleTooLong)
        } else if !m.enrollments.contains_key(key) {
            Err(Error::EnrollmentNotFound)
        } else if !m.enrollments[key].completed {
            Err(Error::NotCompleted)
        } else if m.enrollments[key].certificate_issued {
            Err(Error::CertificateAlreadyIssued)
        } else if m.certificates.contains_key(certificate_id@) {
            Err(Error::CertificateIdExists)
        } else if !m.courses.contains_key(course_id@) {
            Err(Error::CourseNotFound)
        } else {
            let cert = Certificate {
                id: certificate_id,
                student,
                course_id,
                course_title,
                enrollment_reference,
                instructor: m.courses[course_id@].instructor,
                issued_at_ledger: ctx.sequence,
                revoked: false,
                revoked_by: None,
                revoked_at_ledger: None,
                revocation_reason: None,
                expires_at_ledger,
            };
            let e = Enrollment {
                certificate_issued: true,
                certificate_id: Some(certificate_id),
                ..m.enrollments[key]
            };
            Ok(
                Step {
                    state: Model {
                        certificates: m.certificates.insert(certificate_id@, cert),
                        enrollments: m.enrollments.insert(key, e),
                        ..m
                    },
                    value: certificate_id,
                    auths: seq![admin],
                    transfers: seq![],
                    events: seq![
                        Event::CertificateIssued {
                            admin,
                            certificate_id,
                            student,
                            course_id,
                            course_title,
                            ledger: ctx.sequence,
                        },
                    ],
                },
            )
        },
    }
}

pub open spec fn revoke_certificate(
    m: Model,
    ctx: CallContext,
    admin: String,
    certificate_id: String,
    reason: String,
) -> Result<Step<()>, Error> {
    match admin_check(m, admin, AdminOp::RevokeCertificate) {
        Some(e) => Err(e),
        None => if !m.certificates.contains_key(certificate_id@) {
            Err(Error::CertificateNotFound)
        } else if m.certificates[certificate_id@].revoked {
            Err(Error::AlreadyRevoked)
        } else {
            let cert = Certificate {
                revoked: true,
                revoked_by: Some(admin),
                revoked_at_ledger: Some(ctx.sequence),
                revocation_reason: Some(reason),
                ..m.certificates[certificate_id@]
            };
            done_with(
                Model { certificates: m.certificates.insert(certificate_id@, cert), ..m },
                seq![admin],
                Event::CertificateRevoked {
                    admin,
                    certificate_id,
                    student: m.certificates[certificate_id@].student,
                    course_id: m.certificates[certificate_id@].course_id,
                    reason,
                    ledger: ctx.sequence,
                },
            )
        },
    }
}

// ------------------------------------------------------------------
// Prefix lemmas for the folds over lists
// ------------------------------------------------------------------

/// An error found in a prefix of the list is the list's first error.
pub proof fn lemma_first_error_prefix(m: Model, student: String, ids: Seq<String>, k: int)
    requires
        0 <= k <= ids.len(),
        first_enrollment_error(m, student, ids.take(k)) is Some,
    ensures
        first_enrollment_error(m, student, ids) == first_enrollment_error(m, student, ids.take(k)),
    decreases ids.len(),
{
    if k == ids.len() {
        assert(ids.take(k) =~= ids);
    } else {
        assert(ids.drop_last().take(k) =~= ids.take(k));
        lemma_first_error_prefix(m, student, ids.drop_last(), k);
    }
}

/// An enrollment that fails in a prefix makes the whole list fail the same way.
pub proof fn lemma_enroll_all_prefix(
    m: Model,
    ctx: CallContext,
    student: String,
    ids: Seq<String>,
    k: int,
)
    requires
        0 <= k <= ids.len(),
        enroll_all(m, ctx, student, ids.take(k)) is Err,
    ensures
        enroll_all(m, ctx, student, ids) == enroll_all(m, ctx, student, ids.take(k)),
    decreases ids.len(),
{
    if k == ids.len() {
        assert(ids.take(k) =~= ids);
    } else {
        assert(ids.drop_last().take(k) =~= ids.take(k));
        lemma_enroll_all_prefix(m, ctx, student, ids.drop_last(), k);
    }
}

/// A refund that fails in a prefix makes the whole list fail the same way.
pub proof fn lemma_archive_refunds_prefix(
    m: Model,
    ctx: CallContext,
    course_id: String,
    course: Course,
    treasury: String,
    students: Seq<String>,
    k: int,
)
    requires
        0 <= k <= students.len(),
        archive_refunds(m, ctx, course_id, course, treasury, students.take(k)) is Err,
    ensures
        archive_refunds(m, ctx, course_id, course, treasury, students) == archive_refunds(
            m,
            ctx,
            course_id,
            course,
            treasury,
            students.take(k),
        ),
    decreases students.len(),
{
    if k == students.len() {
        assert(students.take(k) =~= students);
    } else {
        assert(students.drop_last().take(k) =~= students.take(k));
        lemma_archive_refunds_prefix(m, ctx, course_id, course, treasury, students.drop_last(), k);
    }
}

} // verus!
