//! Durable-log topic reconciliation: converging a remote topic's declared
//! subjects and policies with the ones a target stage asks for.

use vstd::prelude::*;
use vstd::utf8::*;

verus! {

/// Byte-wise lexicographic order, a proper prefix coming first.
pub open spec fn bytes_lt(a: Seq<u8>, b: Seq<u8>) -> bool
    decreases a.len(),
{
    if b.len() == 0 {
        false
    } else if a.len() == 0 {
        true
    } else if a[0] != b[0] {
        a[0] < b[0]
    } else {
        bytes_lt(a.drop_first(), b.drop_first())
    }
}

/// The order of strings: that of their UTF-8 bytes, which is also `str`'s own.
pub open spec fn subject_lt(a: Seq<char>, b: Seq<char>) -> bool {
    bytes_lt(encode_utf8(a), encode_utf8(b))
}

pub open spec fn subject_views(v: Seq<String>) -> Seq<Seq<char>> {
    v.map_values(|s: String| s@)
}

/// The subjects that a list names.
pub open spec fn subject_set(v: Seq<String>) -> Set<Seq<char>> {
    subject_views(v).to_set()
}

/// Ascending without repeats.
pub open spec fn strictly_sorted(s: Seq<Seq<char>>) -> bool {
    forall|i: int, j: int| 0 <= i < j < s.len() ==> subject_lt(#[trigger] s[i], #[trigger] s[j])
}

proof fn lemma_bytes_lt_irreflexive(a: Seq<u8>)
    ensures
        !bytes_lt(a, a),
    decreases a.len(),
{
    if a.len() > 0 {
        lemma_bytes_lt_irreflexive(a.drop_first());
    }
}

proof fn lemma_bytes_lt_transitive(a: Seq<u8>, b: Seq<u8>, c: Seq<u8>)
    requires
        bytes_lt(a, b),
        bytes_lt(b, c),
    ensures
        bytes_lt(a, c),
    decreases a.len(),
{
    if a.len() > 0 && a[0] == b[0] && b[0] == c[0] {
        lemma_bytes_lt_transitive(a.drop_first(), b.drop_first(), c.drop_first());
    }
}

proof fn lemma_bytes_lt_total(a: Seq<u8>, b: Seq<u8>)
    requires
        a != b,
    ensures
        bytes_lt(a, b) || bytes_lt(b, a),
    decreases a.len(),
{
    if a.len() == 0 && b.len() == 0 {
        assert(a =~= b);
    } else if a.len() > 0 && b.len() > 0 && a[0] == b[0] {
        if a.drop_first() == b.drop_first() {
            assert(a.drop_first().len() == b.drop_first().len());
            assert(a.len() == b.len());
            assert forall|i: int| 0 <= i < a.len() implies a[i] == b[i] by {
                if i > 0 {
                    assert(a[i] == a.drop_first()[i - 1]);
                    assert(b[i] == b.drop_first()[i - 1]);
                }
            }
            assert(a =~= b);
        }
        lemma_bytes_lt_total(a.drop_first(), b.drop_first());
    }
}

proof fn lemma_subject_lt_irreflexive(a: Seq<char>)
    ensures
        !subject_lt(a, a),
{
    lemma_bytes_lt_irreflexive(encode_utf8(a));
}

proof fn lemma_subject_lt_transitive(a: Seq<char>, b: Seq<char>, c: Seq<char>)
    requires
        subject_lt(a, b),
        subject_lt(b, c),
    ensures
        subject_lt(a, c),
{
    lemma_bytes_lt_transitive(encode_utf8(a), encode_utf8(b), encode_utf8(c));
}

proof fn lemma_subject_lt_total(a: Seq<char>, b: Seq<char>)
    requires
        a != b,
    ensures
        subject_lt(a, b) || subject_lt(b, a),
{
    if encode_utf8(a) == encode_utf8(b) {
        encode_utf8_decode_utf8(a);
        encode_utf8_decode_utf8(b);
    }
    lemma_bytes_lt_total(encode_utf8(a), encode_utf8(b));
}

proof fn lemma_push_to_set(s: Seq<Seq<char>>, x: Seq<char>)
    ensures
        s.push(x).to_set() == s.to_set().insert(x),
{
    assert forall|a: Seq<char>| s.push(x).contains(a) <==> (s.contains(a) || a == x) by {
        if s.push(x).contains(a) {
            let k = choose|k: int| 0 <= k < s.push(x).len() && s.push(x)[k] == a;
            if k < s.len() {
                assert(s[k] == a);
            }
        }
        if s.contains(a) {
            let k = choose|k: int| 0 <= k < s.len() && s[k] == a;
            assert(s.push(x)[k] == a);
        }
        if a == x {
            assert(s.push(x)[s.len() as int] == x);
        }
    }
    assert forall|a: Seq<char>| #[trigger] s.push(x).to_set().contains(a) <==> s.to_set().insert(
        x,
    ).contains(a) by {
        assert(s.push(x).contains(a) <==> (s.contains(a) || a == x));
    }
    assert(s.push(x).to_set() =~= s.to_set().insert(x));
}

proof fn lemma_prefix_set(v: Seq<String>, i: int)
    requires
        0 <= i < v.len(),
    ensures
        subject_set(v.subrange(0, i + 1)) == subject_set(v.subrange(0, i)).insert(v[i]@),
{
    assert(subject_views(v.subrange(0, i + 1)) =~= subject_views(v.subrange(0, i)).push(v[i]@));
    lemma_push_to_set(subject_views(v.subrange(0, i)), v[i]@);
}

/// Compares two strings in `str`'s order.
fn subject_less(a: &String, b: &String) -> (r: bool)
    ensures
        r == subject_lt(a@, b@),
{
    let x = a.as_str().as_bytes();
    let y = b.as_str().as_bytes();
    let mut i: usize = 0;
    assert(x@.skip(0) =~= x@);
    assert(y@.skip(0) =~= y@);
    while i < x.len() && i < y.len()
        invariant
            i <= x@.len(),
            i <= y@.len(),
            x@ == encode_utf8(a@),
            y@ == encode_utf8(b@),
            bytes_lt(x@, y@) == bytes_lt(x@.skip(i as int), y@.skip(i as int)),
        decreases x@.len() - i,
    {
        if x[i] != y[i] {
            assert(x@.skip(i as int)[0] == x@[i as int]);
            assert(y@.skip(i as int)[0] == y@[i as int]);
            return x[i] < y[i];
        }
        assert(x@.skip(i as int).drop_first() =~= x@.skip(i + 1));
        assert(y@.skip(i as int).drop_first() =~= y@.skip(i + 1));
        i = i + 1;
    }
    i < y.len()
}

/// Adds a subject to an ascending list, keeping it ascending and free of repeats.
fn insert_subject(v: &mut Vec<String>, s: String)
    requires
        strictly_sorted(subject_views(old(v)@)),
    ensures
        strictly_sorted(subject_views(final(v)@)),
        subject_set(final(v)@) == subject_set(old(v)@).insert(s@),
{
    let ghost old_views = subject_views(v@);
    let mut i: usize = 0;
    while i < v.len() && subject_less(&v[i], &s)
        invariant
            i <= v@.len(),
            v@ == old(v)@,
            old_views == subject_views(v@),
            forall|k: int| 0 <= k < i ==> subject_lt(#[trigger] old_views[k], s@),
        decreases v@.len() - i,
    {
        i = i + 1;
    }
    if i < v.len() && v[i] == s {
        assert(old_views[i as int] == s@);
        assert(old_views.to_set().insert(s@) =~= old_views.to_set());
        return;
    }
    let ghost x = s@;
    v.insert(i, s);
    let ghost new_views = subject_views(v@);
    assert(new_views =~= old_views.insert(i as int, x));
    assert forall|q: int| i < q < new_views.len() implies subject_lt(x, #[trigger] new_views[q]) by {
        let o = old_views[i as int];
        assert(o != x);
        assert(!subject_lt(o, x));
        lemma_subject_lt_total(o, x);
        if q > i + 1 {
            assert(subject_lt(o, old_views[q - 1]));
            lemma_subject_lt_transitive(x, o, old_views[q - 1]);
        }
    }
    assert forall|p: int, q: int| 0 <= p < q < new_views.len() implies subject_lt(
        #[trigger] new_views[p],
        #[trigger] new_views[q],
    ) by {
        if p < i && q > i {
            assert(new_views[q] == old_views[q - 1]);
            assert(subject_lt(old_views[p], old_views[q - 1]));
        } else if p > i {
            assert(subject_lt(old_views[p - 1], old_views[q - 1]));
        }
    }
    assert forall|a: Seq<char>| new_views.contains(a) <==> (old_views.contains(a) || a == x) by {
        if new_views.contains(a) {
            let k = choose|k: int| 0 <= k < new_views.len() && new_views[k] == a;
            if k < i {
                assert(old_views[k] == a);
            } else if k > i {
                assert(old_views[k - 1] == a);
            }
        }
        if old_views.contains(a) {
            let k = choose|k: int| 0 <= k < old_views.len() && old_views[k] == a;
            if k < i {
                assert(new_views[k] == a);
            } else {
                assert(new_views[k + 1] == a);
            }
        }
        if a == x {
            assert(new_views[i as int] == x);
        }
    }
    assert(new_views.to_set() =~= old_views.to_set().insert(x));
}

/// The union of two subject lists, ascending and free of repeats.
pub fn merge_subjects(current: &Vec<String>, desired: &Vec<String>) -> (r: Vec<String>)
    ensures
        strictly_sorted(subject_views(r@)),
        subject_set(r@) == subject_set(current@) + subject_set(desired@),
{
    let mut r: Vec<String> = Vec::new();
    assert(subject_views(r@).to_set() =~= Set::empty());
    assert(subject_views(current@.subrange(0, 0)).to_set() =~= Set::empty());
    let mut i: usize = 0;
    while i < current.len()
        invariant
            i <= current@.len(),
            strictly_sorted(subject_views(r@)),
            subject_set(r@) == subject_set(current@.subrange(0, i as int)),
        decreases current@.len() - i,
    {
        proof {
            lemma_prefix_set(current@, i as int);
        }
        insert_subject(&mut r, current[i].clone());
        i = i + 1;
    }
    assert(current@.subrange(0, current@.len() as int) =~= current@);
    assert(subject_views(desired@.subrange(0, 0)).to_set() =~= Set::empty());
    let mut j: usize = 0;
    while j < desired.len()
        invariant
            j <= desired@.len(),
            strictly_sorted(subject_views(r@)),
            subject_set(r@) == subject_set(current@) + subject_set(desired@.subrange(0, j as int)),
        decreases desired@.len() - j,
    {
        proof {
            lemma_prefix_set(desired@, j as int);
        }
        insert_subject(&mut r, desired[j].clone());
        proof {
            assert(subject_set(r@) =~= subject_set(current@) + subject_set(
                desired@.subrange(0, j + 1),
            ));
        }
        j = j + 1;
    }
    assert(desired@.subrange(0, desired@.len() as int) =~= desired@);
    r
}


/// Copies a list of strings.
fn copy_subjects(v: &Vec<String>) -> (r: Vec<String>)
    ensures
        subject_views(r@) == subject_views(v@),
{
    let mut r: Vec<String> = Vec::new();
    let mut i: usize = 0;
    while i < v.len()
        invariant
            i <= v@.len(),
            r@.len() == i,
            subject_views(r@) == subject_views(v@.subrange(0, i as int)),
        decreases v@.len() - i,
    {
        let ghost prev = r@;
        let c = v[i].clone();
        r.push(c);
        proof {
            assert forall|k: int| 0 <= k <= i implies #[trigger] subject_views(r@)[k] == subject_views(
                v@.subrange(0, i + 1),
            )[k] by {
                if k < i {
                    assert(r@[k] == prev[k]);
                    assert(subject_views(prev)[k] == subject_views(v@.subrange(0, i as int))[k]);
                }
            }
            assert(subject_views(r@) =~= subject_views(v@.subrange(0, i + 1)));
        }
        i = i + 1;
    }
    assert(v@.subrange(0, v@.len() as int) =~= v@);
    r
}

pub open spec fn text_view(o: Option<String>) -> Option<Seq<char>> {
    match o {
        Some(s) => Some(s@),
        None => None,
    }
}

fn copy_text(o: &Option<String>) -> (r: Option<String>)
    ensures
        text_view(r) == text_view(*o),
{
    match o {
        Some(s) => Some(s.clone()),
        None => None,
    }
}

/// When stored messages are removed.
#[derive(Clone, Copy, Debug, PartialEq, Eq, Structural)]
pub enum RetentionPolicy {
    Limits,
    Interest,
    WorkQueue,
}

/// Which messages give way when a limit is reached.
#[derive(Clone, Copy, Debug, PartialEq, Eq, Structural)]
pub enum DiscardPolicy {
    Old,
    New,
}

/// How long a topic keeps a message when the target names no age: one day.
pub const DEFAULT_MAX_AGE_SECS: u64 = 86400;

/// A durable-log target as configured.
#[derive(Clone, Debug)]
pub struct Target {
    pub credentials: String,
    pub stream_name: String,
    pub stream_description: Option<String>,
    pub subjects: Vec<String>,
    /// In seconds.
    pub max_age: Option<u64>,
}

/// The declared configuration of a remote topic.
#[derive(Clone, Debug)]
pub struct TopicConfig {
    pub name: String,
    pub description: Option<String>,
    pub subjects: Vec<String>,
    pub retention: RetentionPolicy,
    pub discard: DiscardPolicy,
    pub max_age_secs: u64,
    pub max_messages_per_subject: i64,
}

pub open spec fn max_age_of(target: Target) -> u64 {
    match target.max_age {
        Some(a) => a,
        None => DEFAULT_MAX_AGE_SECS,
    }
}

/// Everything but the subjects is what the target asks for.
pub open spec fn managed_fields_match(c: TopicConfig, target: Target) -> bool {
    &&& c.name@ == target.stream_name@
    &&& text_view(c.description) == text_view(target.stream_description)
    &&& c.retention == RetentionPolicy::Limits
    &&& c.discard == DiscardPolicy::Old
    &&& c.max_age_secs == max_age_of(target)
    &&& c.max_messages_per_subject == 1
}

/// The topic a target asks for: its own subjects, limits retention, the oldest
/// messages discarded first, one message kept per subject.
pub fn desired_topic(target: &Target) -> (r: TopicConfig)
    ensures
        managed_fields_match(r, *target),
        subject_views(r.subjects@) == subject_views(target.subjects@),
{
    let max_age_secs = match target.max_age {
        Some(a) => a,
        None => DEFAULT_MAX_AGE_SECS,
    };
    TopicConfig {
        name: target.stream_name.clone(),
        description: copy_text(&target.stream_description),
        subjects: copy_subjects(&target.subjects),
        retention: RetentionPolicy::Limits,
        discard: DiscardPolicy::Old,
        max_age_secs,
        max_messages_per_subject: 1,
    }
}

/// What looking the topic up by name found.
#[derive(Clone, Debug)]
pub enum RemoteTopic {
    /// The topic exists and declares these subjects.
    Found(Vec<String>),
    Absent,
    LookupFailed,
}

/// The one write that brings the remote topic in line.
#[derive(Clone, Debug)]
pub enum TopicAction {
    Create(TopicConfig),
    Update(TopicConfig),
}

/// Which step of binding to the durable log failed; each one aborts the bind.
#[derive(Clone, Copy, Debug, PartialEq, Eq, Structural)]
pub enum ReconcileError {
    Lookup,
    Create,
    Update,
}

pub open spec fn remote_subjects(remote: RemoteTopic) -> Option<Set<Seq<char>>> {
    match remote {
        RemoteTopic::Found(s) => Some(subject_set(s@)),
        _ => None,
    }
}

/// The subjects a topic declares once reconciled: the union of what it had and
/// what is desired, or the desired ones for a new topic.
pub open spec fn reconciled_subjects(
    remote: Option<Set<Seq<char>>>,
    desired: Set<Seq<char>>,
) -> Set<Seq<char>> {
    match remote {
        Some(current) => current + desired,
        None => desired,
    }
}

pub open spec fn action_config(a: TopicAction) -> TopicConfig {
    match a {
        TopicAction::Create(c) => c,
        TopicAction::Update(c) => c,
    }
}

/// Decides how to converge the remote topic with the target: create it with the
/// desired configuration when absent; otherwise update it with the sorted union
/// of its subjects and the desired ones, the managed fields overwritten. A failed
/// lookup aborts.
pub fn plan_reconciliation(target: &Target, remote: &RemoteTopic) -> (r: Result<
    TopicAction,
    ReconcileError,
>)
    ensures
        (r == Err::<TopicAction, ReconcileError>(ReconcileError::Lookup)) <==> (
        *remote is LookupFailed),
        r is Ok <==> !(*remote is LookupFailed),
        r matches Ok(a) ==> {
            &&& (a is Create <==> *remote is Absent)
            &&& managed_fields_match(action_config(a), *target)
            &&& subject_set(action_config(a).subjects@) == reconciled_subjects(
                remote_subjects(*remote),
                subject_set(target.subjects@),
            )
            &&& (a is Create ==> subject_views(action_config(a).subjects@) == subject_views(
                target.subjects@,
            ))
            &&& (a is Update ==> strictly_sorted(subject_views(action_config(a).subjects@)))
        },
{
    match remote {
        RemoteTopic::LookupFailed => Err(ReconcileError::Lookup),
        RemoteTopic::Absent => Ok(TopicAction::Create(desired_topic(target))),
        RemoteTopic::Found(current) => {
            let mut config = desired_topic(target);
            config.subjects = merge_subjects(current, &target.subjects);
            Ok(TopicAction::Update(config))
        },
    }
}

impl TopicAction {
    /// The result of the bind once the write was attempted.
    pub fn finish(&self, applied: bool) -> (r: Result<(), ReconcileError>)
        ensures
            r is Ok <==> applied,
            !applied ==> r == Err::<(), ReconcileError>(
                if *self is Create {
                    ReconcileError::Create
                } else {
                    ReconcileError::Update
                },
            ),
    {
        if applied {
            Ok(())
        } else {
            match self {
                TopicAction::Create(_) => Err(ReconcileError::Create),
                TopicAction::Update(_) => Err(ReconcileError::Update),
            }
        }
    }
}

/// Reconciling a second time with the same desired subjects leaves the remote
/// topic with the subjects that the first reconciliation gave it.
pub proof fn lemma_reconcile_idempotent(remote: Option<Set<Seq<char>>>, desired: Set<Seq<char>>)
    ensures
        reconciled_subjects(Some(reconciled_subjects(remote, desired)), desired)
            == reconciled_subjects(remote, desired),
{
    assert(reconciled_subjects(Some(reconciled_subjects(remote, desired)), desired)
        =~= reconciled_subjects(remote, desired));
}

/// Two ascending lists without repeats that name the same subjects are the same list.
pub proof fn lemma_sorted_unique(s: Seq<Seq<char>>, t: Seq<Seq<char>>)
    requires
        strictly_sorted(s),
        strictly_sorted(t),
        s.to_set() == t.to_set(),
    ensures
        s == t,
    decreases s.len(),
{
    if s.len() == 0 {
        if t.len() > 0 {
            assert(t.to_set().contains(t[0]));
        }
        assert(s =~= t);
    } else {
        assert(s.to_set().contains(s[0]));
        assert(t.contains(s[0]));
        assert(t.len() > 0);
        assert(t.to_set().contains(t[0]));
        assert(s.contains(t[0]));
        if s[0] != t[0] {
            let j = choose|j: int| 0 <= j < t.len() && t[j] == s[0];
            let i = choose|i: int| 0 <= i < s.len() && s[i] == t[0];
            assert(j > 0 && i > 0);
            assert(subject_lt(t[0], s[0]));
            assert(subject_lt(s[0], t[0]));
            lemma_subject_lt_transitive(s[0], t[0], s[0]);
            lemma_subject_lt_irreflexive(s[0]);
        }
        let s1 = s.drop_first();
        let t1 = t.drop_first();
        assert forall|x: Seq<char>| s1.contains(x) <==> t1.contains(x) by {
            if s1.contains(x) {
                let k = choose|k: int| 0 <= k < s1.len() && s1[k] == x;
                assert(s[k + 1] == x);
                assert(subject_lt(s[0], x));
                assert(x != s[0]) by {
                    lemma_subject_lt_irreflexive(x);
                }
                assert(s.to_set().contains(x));
                let m = choose|m: int| 0 <= m < t.len() && t[m] == x;
                assert(m != 0);
                assert(t1[m - 1] == x);
            }
            if t1.contains(x) {
                let k = choose|k: int| 0 <= k < t1.len() && t1[k] == x;
                assert(t[k + 1] == x);
                assert(subject_lt(t[0], x));
                assert(x != t[0]) by {
                    lemma_subject_lt_irreflexive(x);
                }
                assert(t.to_set().contains(x));
                let m = choose|m: int| 0 <= m < s.len() && s[m] == x;
                assert(m != 0);
                assert(s1[m - 1] == x);
            }
        }
        assert(s1.to_set() =~= t1.to_set());
        lemma_sorted_unique(s1, t1);
        assert(s =~= t) by {
            assert forall|k: int| 0 <= k < s.len() implies s[k] == t[k] by {
                if k > 0 {
                    assert(s[k] == s1[k - 1]);
                    assert(t[k] == t1[k - 1]);
                }
            }
        }
    }
}

/// Once a topic declares the sorted union of its subjects and the desired ones,
/// reconciling again with the same desired subjects declares the very same list.
pub proof fn lemma_update_list_stable(
    first: Seq<Seq<char>>,
    second: Seq<Seq<char>>,
    desired: Set<Seq<char>>,
)
    requires
        strictly_sorted(first),
        desired.subset_of(first.to_set()),
        strictly_sorted(second),
        second.to_set() == first.to_set() + desired,
    ensures
        second == first,
{
    assert(second.to_set() =~= first.to_set());
    lemma_sorted_unique(second, first);
}

/// Reconciling with desired subjects `a` and then `b` leaves the remote topic
/// with every subject of both, and every subject it had before: reconciliation
/// never removes a subject.
pub proof fn lemma_reconcile_monotonic(
    remote: Option<Set<Seq<char>>>,
    a: Set<Seq<char>>,
    b: Set<Seq<char>>,
)
    ensures
        (a + b).subset_of(reconciled_subjects(Some(reconciled_subjects(remote, a)), b)),
        remote matches Some(r) ==> r.subset_of(
            reconciled_subjects(Some(reconciled_subjects(remote, a)), b),
        ),
{
}

} // verus!
