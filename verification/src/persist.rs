//! The platform's state as plain lists, the form in which it is saved and
//! loaded, and what it means for such lists to hold a state.

use vstd::prelude::*;
use crate::model::{course_ok, distinct_pair, lemma_uncompleted_remove, uncompleted, Model};
use crate::table::{Dup, Table};
use crate::types::{Certificate, Course, CourseStatus, Enrollment, RefundRequest, TreasuryUpdate};

verus! {

/// The platform's state as lists. Courses and certificates are keyed by
/// their identifier, enrollments and refund requests by student and course,
/// earnings by instructor and token, course counts by instructor.
pub struct PlatformParts {
    pub admin: Option<String>,
    pub secondary_admin: Option<String>,
    pub treasury: Option<String>,
    pub default_fee: u32,
    pub max_courses: u32,
    pub paused: bool,
    pub pending_treasury: Option<TreasuryUpdate>,
    pub pending_admin: Option<String>,
    pub pending_secondary_admin: Option<String>,
    pub min_review_delay: u32,
    pub refund_window: u32,
    pub courses: Vec<Course>,
    pub enrollments: Vec<Enrollment>,
    pub certificates: Vec<Certificate>,
    pub earnings: Vec<(String, String, i128)>,
    pub course_counts: Vec<(String, u32)>,
    pub approved_tokens: Vec<String>,
    pub frozen: Vec<String>,
    pub catalog: Vec<String>,
    pub refunds: Vec<RefundRequest>,
}

/// The map holds exactly the listed entries, each under its key.
pub open spec fn lists<V, K, W>(
    m: Map<K, W>,
    vals: Seq<V>,
    key: spec_fn(V) -> K,
    val: spec_fn(V) -> W,
) -> bool {
    &&& forall|i: int|
        0 <= i < vals.len() ==> #[trigger] m.contains_key(key(vals[i])) && m[key(vals[i])] == val(
            vals[i],
        )
    &&& forall|k: K| #[trigger]
        m.contains_key(k) ==> exists|i: int| 0 <= i < vals.len() && key(vals[i]) == k
}

/// No key occurs twice in the list.
pub open spec fn distinct<V, K>(vals: Seq<V>, key: spec_fn(V) -> K) -> bool {
    forall|i: int, j: int|
        #![trigger vals[i], vals[j]]
        0 <= i < j < vals.len() ==> key(vals[i]) != key(vals[j])
}

/// The set holds exactly the listed texts.
pub open spec fn lists_set(s: Set<Seq<char>>, vals: Seq<String>) -> bool {
    forall|k: Seq<char>| s.contains(k) <==> exists|i: int| 0 <= i < vals.len() && #[trigger] vals[i]@ == k
}

pub open spec fn course_key() -> spec_fn(Course) -> Seq<char> {
    |c: Course| c.id@
}

pub open spec fn course_val() -> spec_fn(Course) -> Course {
    |c: Course| c
}

pub open spec fn enrollment_key() -> spec_fn(Enrollment) -> (Seq<char>, Seq<char>) {
    |e: Enrollment| (e.student@, e.course_id@)
}

pub open spec fn enrollment_val() -> spec_fn(Enrollment) -> Enrollment {
    |e: Enrollment| e
}

pub open spec fn certificate_key() -> spec_fn(Certificate) -> Seq<char> {
    |c: Certificate| c.id@
}

pub open spec fn certificate_val() -> spec_fn(Certificate) -> Certificate {
    |c: Certificate| c
}

pub open spec fn earning_key() -> spec_fn((String, String, i128)) -> (Seq<char>, Seq<char>) {
    |e: (String, String, i128)| (e.0@, e.1@)
}

pub open spec fn earning_val() -> spec_fn((String, String, i128)) -> i128 {
    |e: (String, String, i128)| e.2
}

pub open spec fn count_key() -> spec_fn((String, u32)) -> Seq<char> {
    |e: (String, u32)| e.0@
}

pub open spec fn count_val() -> spec_fn((String, u32)) -> u32 {
    |e: (String, u32)| e.1
}

pub open spec fn refund_key() -> spec_fn(RefundRequest) -> (Seq<char>, Seq<char>) {
    |r: RefundRequest| (r.student@, r.course_id@)
}

pub open spec fn refund_val() -> spec_fn(RefundRequest) -> RefundRequest {
    |r: RefundRequest| r
}

/// The number of listed enrollments in course `cid` that are not completed.
pub open spec fn open_count(es: Seq<Enrollment>, cid: Seq<char>) -> nat
    decreases es.len(),
{
    if es.len() == 0 {
        0
    } else {
        open_count(es.drop_last(), cid) + if es.last().course_id@ == cid && !es.last().completed {
            1nat
        } else {
            0nat
        }
    }
}

/// Lists that can be loaded: no key twice, and the entries obey the
/// platform's invariant.
pub open spec fn parts_valid(p: PlatformParts) -> bool {
    &&& p.default_fee <= 100
    &&& distinct_pair(p.admin, p.secondary_admin)
    &&& distinct_pair(p.pending_admin, p.pending_secondary_admin)
    &&& distinct(p.courses@, course_key())
    &&& forall|i: int| 0 <= i < p.courses@.len() ==> course_ok(#[trigger] p.courses@[i].id@, p.courses@[i])
    &&& distinct(p.enrollments@, enrollment_key())
    &&& forall|i: int|
        0 <= i < p.courses@.len() ==> #[trigger] p.courses@[i].active_enrollments == open_count(
            p.enrollments@,
            p.courses@[i].id@,
        )
    &&& forall|i: int|
        0 <= i < p.enrollments@.len() ==> (exists|j: int|
            0 <= j < p.courses@.len() && #[trigger] p.courses@[j].id@
                == p.enrollments@[i].course_id@) && #[trigger] p.enrollments@[i].amount_paid >= 0
    &&& distinct(p.certificates@, certificate_key())
    &&& distinct(p.earnings@, earning_key())
    &&& forall|i: int| 0 <= i < p.earnings@.len() ==> #[trigger] p.earnings@[i].2 > 0
    &&& distinct(p.course_counts@, count_key())
    &&& distinct(p.refunds@, refund_key())
}

/// The lists hold the state `m`.
pub open spec fn loaded(p: PlatformParts, m: Model) -> bool {
    &&& m.admin == p.admin
    &&& m.secondary_admin == p.secondary_admin
    &&& m.treasury == p.treasury
    &&& m.default_fee == p.default_fee
    &&& m.max_courses == p.max_courses
    &&& m.paused == p.paused
    &&& m.pending_treasury == p.pending_treasury
    &&& m.pending_admin == p.pending_admin
    &&& m.pending_secondary_admin == p.pending_secondary_admin
    &&& m.min_review_delay == p.min_review_delay
    &&& m.refund_window == p.refund_window
    &&& lists(m.courses, p.courses@, course_key(), course_val())
    &&& lists(m.enrollments, p.enrollments@, enrollment_key(), enrollment_val())
    &&& lists(m.certificates, p.certificates@, certificate_key(), certificate_val())
    &&& lists(m.earnings, p.earnings@, earning_key(), earning_val())
    &&& lists(m.course_counts, p.course_counts@, count_key(), count_val())
    &&& lists_set(m.approved_tokens, p.approved_tokens@)
    &&& lists_set(m.frozen, p.frozen@)
    &&& m.catalog == p.catalog@
    &&& lists(m.refunds, p.refunds@, refund_key(), refund_val())
}

proof fn lemma_lists_unique<V, K, W>(
    m1: Map<K, W>,
    m2: Map<K, W>,
    vals: Seq<V>,
    key: spec_fn(V) -> K,
    val: spec_fn(V) -> W,
)
    requires
        lists(m1, vals, key, val),
        lists(m2, vals, key, val),
    ensures
        m1 == m2,
{
    assert forall|k: K| m1.contains_key(k) implies m2.contains_key(k) && m1[k] == m2[k] by {
        let i = choose|i: int| 0 <= i < vals.len() && key(vals[i]) == k;
        assert(m2.contains_key(key(vals[i])));
    }
    assert forall|k: K| m2.contains_key(k) implies m1.contains_key(k) by {
        let i = choose|i: int| 0 <= i < vals.len() && key(vals[i]) == k;
        assert(m1.contains_key(key(vals[i])));
    }
    assert(m1 =~= m2);
}

/// Lists hold at most one state: what is saved is what is loaded back.
pub proof fn law_lists_hold_one_state(p: PlatformParts, m1: Model, m2: Model)
    requires
        loaded(p, m1),
        loaded(p, m2),
    ensures
        m1 == m2,
{
    lemma_lists_unique(m1.courses, m2.courses, p.courses@, course_key(), course_val());
    lemma_lists_unique(
        m1.enrollments,
        m2.enrollments,
        p.enrollments@,
        enrollment_key(),
        enrollment_val(),
    );
    lemma_lists_unique(
        m1.certificates,
        m2.certificates,
        p.certificates@,
        certificate_key(),
        certificate_val(),
    );
    lemma_lists_unique(m1.earnings, m2.earnings, p.earnings@, earning_key(), earning_val());
    lemma_lists_unique(m1.course_counts, m2.course_counts, p.course_counts@, count_key(), count_val());
    lemma_lists_unique(m1.refunds, m2.refunds, p.refunds@, refund_key(), refund_val());
    assert(m1.approved_tokens =~= m2.approved_tokens);
    assert(m1.frozen =~= m2.frozen);
    assert(m1 =~= m2);
}

proof fn lemma_lists_push<V, K, W>(
    m: Map<K, W>,
    vals: Seq<V>,
    key: spec_fn(V) -> K,
    val: spec_fn(V) -> W,
    x: V,
)
    requires
        lists(m, vals, key, val),
        distinct(vals, key),
        !m.contains_key(key(x)),
    ensures
        lists(m.insert(key(x), val(x)), vals.push(x), key, val),
        distinct(vals.push(x), key),
{
    let m2 = m.insert(key(x), val(x));
    let v2 = vals.push(x);
    assert forall|i: int| 0 <= i < v2.len() implies #[trigger] m2.contains_key(key(v2[i])) && m2[key(
        v2[i],
    )] == val(v2[i]) by {
        if i < vals.len() {
            assert(v2[i] == vals[i]);
            assert(m.contains_key(key(vals[i])));
        }
    }
    assert forall|k: K| #[trigger] m2.contains_key(k) implies exists|i: int|
        0 <= i < v2.len() && key(v2[i]) == k by {
        if k == key(x) {
            assert(key(v2[vals.len() as int]) == k);
        } else {
            let i = choose|i: int| 0 <= i < vals.len() && key(vals[i]) == k;
            assert(v2[i] == vals[i]);
        }
    }
    assert forall|i: int, j: int| 0 <= i < j < v2.len() implies key(v2[i]) != key(v2[j]) by {
        assert(v2[i] == vals[i]);
        if j < vals.len() {
            assert(v2[j] == vals[j]);
        } else {
            assert(m.contains_key(key(vals[i])));
        }
    }
}

proof fn lemma_lists_hit<V, K, W>(
    m: Map<K, W>,
    vals: Seq<V>,
    key: spec_fn(V) -> K,
    val: spec_fn(V) -> W,
    all: Seq<V>,
    x: V,
)
    requires
        lists(m, vals, key, val),
        m.contains_key(key(x)),
        vals.len() < all.len(),
        vals == all.take(vals.len() as int),
        x == all[vals.len() as int],
    ensures
        !distinct(all, key),
{
    let i = choose|i: int| 0 <= i < vals.len() && key(vals[i]) == key(x);
    assert(all[i] == vals[i]);
    assert(key(all[i]) == key(all[vals.len() as int]));
}

/// Loads courses keyed by identifier; refuses a repeated identifier or a
/// course that breaks the invariant.
pub fn load_courses(v: &Vec<Course>) -> (r: Option<Table<String, Course>>)
    ensures
        r is Some <==> distinct(v@, course_key()) && forall|i: int|
            0 <= i < v@.len() ==> course_ok(#[trigger] v@[i].id@, v@[i]),
        r matches Some(t) ==> t.wf() && lists(t@, v@, course_key(), course_val()),
{
    let mut t: Table<String, Course> = Table::new();
    let n = v.len();
    for i in 0..n
        invariant
            n == v@.len(),
            t.wf(),
            distinct(v@.take(i as int), course_key()),
            forall|j: int| 0 <= j < i ==> course_ok(#[trigger] v@[j].id@, v@[j]),
            lists(t@, v@.take(i as int), course_key(), course_val()),
    {
        let c = v[i].dup();
        proof {
            assert(v@.take(i + 1) =~= v@.take(i as int).push(v@[i as int]));
        }
        if c.price < 0 || c.platform_fee_percent > 100 || c.active_enrollments > c.total_enrollments
            || c.total_earned < 0 || (c.status == CourseStatus::Archived && c.active_enrollments
            != 0) {
            proof {
                assert(!course_ok(v@[i as int].id@, v@[i as int]));
            }
            return None;
        }
        let ghost t0 = t@;
        if !t.insert_new(c.id.clone(), c) {
            proof {
                lemma_lists_hit(t0, v@.take(i as int), course_key(), course_val(), v@, v@[i as int]);
            }
            return None;
        }
        proof {
            lemma_lists_push(t0, v@.take(i as int), course_key(), course_val(), v@[i as int]);
        }
    }
    proof {
        assert(v@.take(n as int) =~= v@);
    }
    Some(t)
}

/// Loads enrollments keyed by student and course; refuses a repeated key,
/// an enrollment in an unknown course or a negative payment.
pub fn load_enrollments(v: &Vec<Enrollment>, courses: &Table<String, Course>) -> (r: Option<
    Table<(String, String), Enrollment>,
>)
    requires
        courses.wf(),
    ensures
        r is Some <==> distinct(v@, enrollment_key()) && forall|i: int|
            0 <= i < v@.len() ==> courses@.contains_key(#[trigger] v@[i].course_id@)
                && v@[i].amount_paid >= 0,
        r matches Some(t) ==> t.wf() && t@.dom().finite() && lists(
            t@,
            v@,
            enrollment_key(),
            enrollment_val(),
        ),
{
    let mut t: Table<(String, String), Enrollment> = Table::new();
    let n = v.len();
    for i in 0..n
        invariant
            n == v@.len(),
            t.wf(),
            t@.dom().finite(),
            courses.wf(),
            distinct(v@.take(i as int), enrollment_key()),
            forall|j: int| 0 <= j < i ==> courses@.contains_key(#[trigger] v@[j].course_id@),
            forall|j: int| 0 <= j < i ==> #[trigger] v@[j].amount_paid >= 0,
            lists(t@, v@.take(i as int), enrollment_key(), enrollment_val()),
    {
        let e = v[i].dup();
        proof {
            assert(v@.take(i + 1) =~= v@.take(i as int).push(v@[i as int]));
        }
        if !courses.contains_key(&e.course_id) || e.amount_paid < 0 {
            proof {
                assert(!(courses@.contains_key(v@[i as int].course_id@) && v@[i as int].amount_paid >= 0));
            }
            return None;
        }
        proof {
            assert(courses@.contains_key(v@[i as int].course_id@) && v@[i as int].amount_paid >= 0);
        }
        let ghost t0 = t@;
        let key = (e.student.clone(), e.course_id.clone());
        if !t.insert_new(key, e) {
            proof {
                lemma_lists_hit(
                    t0,
                    v@.take(i as int),
                    enrollment_key(),
                    enrollment_val(),
                    v@,
                    v@[i as int],
                );
            }
            return None;
        }
        proof {
            lemma_lists_push(t0, v@.take(i as int), enrollment_key(), enrollment_val(), v@[i as int]);
        }
    }
    proof {
        assert(v@.take(n as int) =~= v@);
    }
    Some(t)
}

/// Loads certificates keyed by identifier; refuses a repeated identifier.
pub fn load_certificates(v: &Vec<Certificate>) -> (r: Option<Table<String, Certificate>>)
    ensures
        r is Some <==> distinct(v@, certificate_key()),
        r matches Some(t) ==> t.wf() && lists(t@, v@, certificate_key(), certificate_val()),
{
    let mut t: Table<String, Certificate> = Table::new();
    let n = v.len();
    for i in 0..n
        invariant
            n == v@.len(),
            t.wf(),
            distinct(v@.take(i as int), certificate_key()),
            lists(t@, v@.take(i as int), certificate_key(), certificate_val()),
    {
        let c = v[i].dup();
        proof {
            assert(v@.take(i + 1) =~= v@.take(i as int).push(v@[i as int]));
        }
        let ghost t0 = t@;
        if !t.insert_new(c.id.clone(), c) {
            proof {
                lemma_lists_hit(
                    t0,
                    v@.take(i as int),
                    certificate_key(),
                    certificate_val(),
                    v@,
                    v@[i as int],
                );
            }
            return None;
        }
        proof {
            lemma_lists_push(t0, v@.take(i as int), certificate_key(), certificate_val(), v@[i as int]);
        }
    }
    proof {
        assert(v@.take(n as int) =~= v@);
    }
    Some(t)
}

/// Loads earnings keyed by instructor and token; refuses a repeated key or a
/// balance that is not positive.
pub fn load_earnings(v: &Vec<(String, String, i128)>) -> (r: Option<Table<(String, String), i128>>)
    ensures
        r is Some <==> distinct(v@, earning_key()) && forall|i: int|
            0 <= i < v@.len() ==> #[trigger] v@[i].2 > 0,
        r matches Some(t) ==> t.wf() && lists(t@, v@, earning_key(), earning_val()),
{
    let mut t: Table<(String, String), i128> = Table::new();
    let n = v.len();
    for i in 0..n
        invariant
            n == v@.len(),
            t.wf(),
            distinct(v@.take(i as int), earning_key()),
            forall|j: int| 0 <= j < i ==> #[trigger] v@[j].2 > 0,
            lists(t@, v@.take(i as int), earning_key(), earning_val()),
    {
        let amount = v[i].2;
        let key = (v[i].0.clone(), v[i].1.clone());
        proof {
            assert(v@.take(i + 1) =~= v@.take(i as int).push(v@[i as int]));
        }
        if amount <= 0 {
            return None;
        }
        let ghost t0 = t@;
        if !t.insert_new(key, amount) {
            proof {
                lemma_lists_hit(t0, v@.take(i as int), earning_key(), earning_val(), v@, v@[i as int]);
            }
            return None;
        }
        proof {
            lemma_lists_push(t0, v@.take(i as int), earning_key(), earning_val(), v@[i as int]);
        }
    }
    proof {
        assert(v@.take(n as int) =~= v@);
    }
    Some(t)
}

/// Loads course counts keyed by instructor; refuses a repeated instructor.
pub fn load_counts(v: &Vec<(String, u32)>) -> (r: Option<Table<String, u32>>)
    ensures
        r is Some <==> distinct(v@, count_key()),
        r matches Some(t) ==> t.wf() && lists(t@, v@, count_key(), count_val()),
{
    let mut t: Table<String, u32> = Table::new();
    let n = v.len();
    for i in 0..n
        invariant
            n == v@.len(),
            t.wf(),
            distinct(v@.take(i as int), count_key()),
            lists(t@, v@.take(i as int), count_key(), count_val()),
    {
        let count = v[i].1;
        let key = v[i].0.clone();
        proof {
            assert(v@.take(i + 1) =~= v@.take(i as int).push(v@[i as int]));
        }
        let ghost t0 = t@;
        if !t.insert_new(key, count) {
            proof {
                lemma_lists_hit(t0, v@.take(i as int), count_key(), count_val(), v@, v@[i as int]);
            }
            return None;
        }
        proof {
            lemma_lists_push(t0, v@.take(i as int), count_key(), count_val(), v@[i as int]);
        }
    }
    proof {
        assert(v@.take(n as int) =~= v@);
    }
    Some(t)
}

/// Loads refund requests keyed by student and course; refuses a repeated key.
pub fn load_refunds(v: &Vec<RefundRequest>) -> (r: Option<Table<(String, String), RefundRequest>>)
    ensures
        r is Some <==> distinct(v@, refund_key()),
        r matches Some(t) ==> t.wf() && lists(t@, v@, refund_key(), refund_val()),
{
    let mut t: Table<(String, String), RefundRequest> = Table::new();
    let n = v.len();
    for i in 0..n
        invariant
            n == v@.len(),
            t.wf(),
            distinct(v@.take(i as int), refund_key()),
            lists(t@, v@.take(i as int), refund_key(), refund_val()),
    {
        let q = v[i].dup();
        let key = (q.student.clone(), q.course_id.clone());
        proof {
            assert(v@.take(i + 1) =~= v@.take(i as int).push(v@[i as int]));
        }
        let ghost t0 = t@;
        if !t.insert_new(key, q) {
            proof {
                lemma_lists_hit(t0, v@.take(i as int), refund_key(), refund_val(), v@, v@[i as int]);
            }
            return None;
        }
        proof {
            lemma_lists_push(t0, v@.take(i as int), refund_key(), refund_val(), v@[i as int]);
        }
    }
    proof {
        assert(v@.take(n as int) =~= v@);
    }
    Some(t)
}

/// Loads a set of texts.
pub fn load_set(v: &Vec<String>) -> (t: Table<String, ()>)
    ensures
        t.wf(),
        lists_set(t@.dom(), v@),
{
    let mut t: Table<String, ()> = Table::new();
    let n = v.len();
    for i in 0..n
        invariant
            n == v@.len(),
            t.wf(),
            lists_set(t@.dom(), v@.take(i as int)),
    {
        let ghost t0 = t@;
        t.insert(v[i].clone(), ());
        proof {
            let w = v@.take(i + 1);
            assert(w =~= v@.take(i as int).push(v@[i as int]));
            assert forall|k: Seq<char>| t@.dom().contains(k) <==> exists|j: int|
                0 <= j < w.len() && #[trigger] w[j]@ == k by {
                if t@.dom().contains(k) {
                    if k == v@[i as int]@ {
                        assert(w[i as int]@ == k);
                    } else {
                        let j = choose|j: int|
                            0 <= j < v@.take(i as int).len() && #[trigger] v@.take(i as int)[j]@ == k;
                        assert(w[j] == v@.take(i as int)[j]);
                    }
                }
                if exists|j: int| 0 <= j < w.len() && #[trigger] w[j]@ == k {
                    let j = choose|j: int| 0 <= j < w.len() && #[trigger] w[j]@ == k;
                    if j < i {
                        assert(v@.take(i as int)[j] == w[j]);
                    }
                }
            }
        }
    }
    proof {
        assert(v@.take(n as int) =~= v@);
    }
    t
}

/// A map that holds exactly the listed enrollments, no key twice, counts
/// each course's uncompleted enrollments as the list does.
pub proof fn lemma_open_count(
    m: Map<(Seq<char>, Seq<char>), Enrollment>,
    vals: Seq<Enrollment>,
    cid: Seq<char>,
)
    requires
        m.dom().finite(),
        lists(m, vals, enrollment_key(), enrollment_val()),
        distinct(vals, enrollment_key()),
    ensures
        uncompleted(m, cid).len() == open_count(vals, cid),
    decreases vals.len(),
{
    if vals.len() == 0 {
        assert(uncompleted(m, cid) =~= Set::empty()) by {
            assert forall|k: (Seq<char>, Seq<char>)| !#[trigger] uncompleted(m, cid).contains(k) by {
                if m.contains_key(k) {
                    let i = choose|i: int| 0 <= i < vals.len() && enrollment_key()(vals[i]) == k;
                }
            }
        }
    } else {
        let n = vals.len() - 1;
        let last = vals[n];
        let k = enrollment_key()(last);
        let rest = vals.drop_last();
        let m2 = m.remove(k);
        assert(m.contains_key(k) && m[k] == last);
        assert forall|i: int| 0 <= i < rest.len() implies #[trigger] m2.contains_key(
            enrollment_key()(rest[i]),
        ) && m2[enrollment_key()(rest[i])] == enrollment_val()(rest[i]) by {
            assert(rest[i] == vals[i]);
            assert(enrollment_key()(vals[i]) != enrollment_key()(vals[n]));
            assert(m.contains_key(enrollment_key()(vals[i])));
        }
        assert forall|kk: (Seq<char>, Seq<char>)| #[trigger] m2.contains_key(kk) implies exists|i: int|
            0 <= i < rest.len() && enrollment_key()(rest[i]) == kk by {
            let i = choose|i: int| 0 <= i < vals.len() && enrollment_key()(vals[i]) == kk;
            assert(i != n);
            assert(rest[i] == vals[i]);
        }
        assert forall|i: int, j: int| 0 <= i < j < rest.len() implies enrollment_key()(rest[i])
            != enrollment_key()(rest[j]) by {
            assert(rest[i] == vals[i]);
            assert(rest[j] == vals[j]);
        }
        lemma_open_count(m2, rest, cid);
        lemma_uncompleted_remove(m, k);
    }
}

/// Counts the listed enrollments in a course that are not completed.
pub fn count_open(es: &Vec<Enrollment>, cid: &String) -> (r: usize)
    ensures
        r == open_count(es@, cid@),
{
    let mut count: usize = 0;
    let n = es.len();
    for j in 0..n
        invariant
            n == es@.len(),
            count <= j,
            count == open_count(es@.take(j as int), cid@),
    {
        proof {
            assert(es@.take(j + 1).drop_last() =~= es@.take(j as int));
        }
        if es[j].course_id == *cid && !es[j].completed {
            count = count + 1;
        }
    }
    proof {
        assert(es@.take(n as int) =~= es@);
    }
    count
}

/// True when every listed course's active count is the number of its listed
/// enrollments that are not completed.
pub fn counts_match(courses: &Vec<Course>, es: &Vec<Enrollment>) -> (r: bool)
    ensures
        r == forall|i: int|
            0 <= i < courses@.len() ==> #[trigger] courses@[i].active_enrollments == open_count(
                es@,
                courses@[i].id@,
            ),
{
    let n = courses.len();
    for i in 0..n
        invariant
            n == courses@.len(),
            forall|j: int|
                0 <= j < i ==> #[trigger] courses@[j].active_enrollments == open_count(
                    es@,
                    courses@[j].id@,
                ),
    {
        if count_open(es, &courses[i].id) != courses[i].active_enrollments as usize {
            return false;
        }
    }
    true
}

} // verus!
