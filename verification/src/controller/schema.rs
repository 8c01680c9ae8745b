//! Reconciliation of Schema resources: render the schema, hash it, make
//! sure a Rollout exists for the current generation, prune old Rollouts and
//! record the hash in the status.
use crate::controller::utils::{spec_variables, start_schema_text, SchemaTextResolver, TextStep};
use crate::controller::{concat3_strs, concat_strs, Error, ReconcileAction};
use crate::crd::{
    clone_opt_string, LocalObjectReference, RolloutSpec, SchemaSpec, SchemaStatus,
    ValueOrRefSource,
};
use crate::text::{append_chars, chars_of, string_of};
use vstd::prelude::*;

verus! {

// ---------------------------------------------------------------------------
// The version hash
// ---------------------------------------------------------------------------

/// The SHA-256 digest of some bytes, as `sha2` computes it.
pub uninterp spec fn sha256_of(data: Seq<u8>) -> Seq<u8>;

/// Calls `sha2::Sha256::digest`; its result is named `sha256_of` of the
/// input bytes.
#[verifier::external_body]
fn sha256_digest(data: &[u8]) -> (r: Vec<u8>)
    ensures
        r@ == sha256_of(data@),
{
    <sha2::Sha256 as sha2::Digest>::digest(data).to_vec()
}

/// The lowercase hexadecimal digit of `n < 16`.
pub open spec fn hex_digit(n: u8) -> char {
    if n < 10 {
        (48 + n) as char
    } else {
        (87 + n) as char
    }
}

/// Bytes in lowercase hexadecimal, two digits per byte (`{:x}`).
pub open spec fn hex_lower(bytes: Seq<u8>) -> Seq<char>
    decreases bytes.len(),
{
    if bytes.len() == 0 {
        Seq::empty()
    } else {
        let b = bytes.last();
        hex_lower(bytes.drop_last()).push(hex_digit(b / 16)).push(hex_digit(b % 16))
    }
}

fn hex_digit_exec(n: u8) -> (c: char)
    requires
        n < 16,
    ensures
        c == hex_digit(n),
{
    if n < 10 {
        (48 + n) as char
    } else {
        (87 + n) as char
    }
}

/// The version hash of a schema text: `sha256:` and the hexadecimal SHA-256
/// digest of its UTF-8 bytes.
pub open spec fn schema_hash_of(text: Seq<char>) -> Seq<char> {
    "sha256:"@ + hex_lower(sha256_of(vstd::utf8::encode_utf8(text)))
}

/// The version hash of a schema text.
pub fn schema_hash(text: &str) -> (r: String)
    ensures
        r@ == schema_hash_of(text@),
{
    let digest = sha256_digest(text.as_bytes());
    let mut h = chars_of("sha256:");
    let ghost h0 = h@;
    for i in 0..digest.len()
        invariant
            h0 == "sha256:"@,
            h@ == h0 + hex_lower(digest@.take(i as int)),
    {
        let b = digest[i];
        h.push(hex_digit_exec(b / 16));
        h.push(hex_digit_exec(b % 16));
        assert(digest@.take(i + 1).drop_last() =~= digest@.take(i as int));
        assert(h@ =~= h0 + hex_lower(digest@.take(i + 1)));
    }
    assert(digest@.take(digest@.len() as int) =~= digest@);
    string_of(h.as_slice())
}

// ---------------------------------------------------------------------------
// Decimal numbers
// ---------------------------------------------------------------------------

/// The decimal digits of a natural number.
pub open spec fn digits_of(n: nat) -> Seq<char>
    decreases n,
{
    if n < 10 {
        seq![(48 + n) as char]
    } else {
        digits_of(n / 10).push((48 + n % 10) as char)
    }
}

/// An integer in decimal, with a leading `-` when negative (`{}`).
pub open spec fn decimal(n: int) -> Seq<char> {
    if n < 0 {
        seq!['-'] + digits_of((-n) as nat)
    } else {
        digits_of(n as nat)
    }
}

fn digits_u64(n: u64) -> (v: Vec<char>)
    ensures
        v@ == digits_of(n as nat),
{
    let mut m: u64 = n;
    let mut digits: Vec<char> = Vec::new();
    assert(digits_of(n as nat) =~= digits_of(m as nat) + digits@);
    while m >= 10
        invariant
            digits_of(n as nat) == digits_of(m as nat) + digits@,
        decreases m,
    {
        let d = (48 + (m % 10) as u8) as char;
        let ghost before = digits@;
        assert(digits_of(m as nat) == digits_of((m / 10) as nat).push(d));
        digits.insert(0, d);
        assert(digits@ =~= seq![d] + before);
        assert(digits_of((m / 10) as nat) + digits@ =~= digits_of(m as nat) + before);
        m = m / 10;
    }
    let last = (48 + m as u8) as char;
    digits.insert(0, last);
    assert(digits_of(m as nat) == seq![last]);
    assert(digits@ =~= digits_of(n as nat));
    digits
}

/// An integer in decimal.
pub fn decimal_string(n: i64) -> (r: String)
    ensures
        r@ == decimal(n as int),
{
    let neg = n < 0;
    let m: u64 = if neg {
        (-(n as i128)) as u64
    } else {
        n as u64
    };
    let digits = digits_u64(m);
    let mut r: Vec<char> = Vec::new();
    if neg {
        r.push('-');
    }
    append_chars(&mut r, digits.as_slice());
    string_of(r.as_slice())
}

/// A count in decimal.
pub fn count_string(n: usize) -> (r: String)
    ensures
        r@ == digits_of(n as nat),
{
    let digits = digits_u64(n as u64);
    string_of(digits.as_slice())
}

// ---------------------------------------------------------------------------
// Pruning the rollout history
// ---------------------------------------------------------------------------

/// A Rollout as the history pruning reads it: its name, phase and creation
/// time (seconds and nanoseconds since the epoch).
#[derive(Clone, Debug, PartialEq)]
pub struct RolloutRecord {
    pub name: String,
    pub phase: Option<String>,
    pub created: Option<(i64, u32)>,
}

/// A Rollout is finished when its phase is `Completed` or `Failed`.
pub open spec fn is_terminal(r: RolloutRecord) -> bool {
    r.phase matches Some(p) && (p@ == "Completed"@ || p@ == "Failed"@)
}

/// Strict order of creation times; an unknown time comes first.
pub open spec fn created_before(a: Option<(i64, u32)>, b: Option<(i64, u32)>) -> bool {
    match (a, b) {
        (None, Some(_)) => true,
        (Some(x), Some(y)) => x.0 < y.0 || (x.0 == y.0 && x.1 < y.1),
        _ => false,
    }
}

/// Rollout `i` comes before rollout `j`: it was created earlier, or at the
/// same time and is listed earlier.
pub open spec fn precedes(rs: Seq<RolloutRecord>, i: int, j: int) -> bool {
    created_before(rs[i].created, rs[j].created) || (rs[i].created == rs[j].created && i < j)
}

/// `o` lists exactly the indices in `s`, oldest first.
pub open spec fn lists_oldest_first(rs: Seq<RolloutRecord>, o: Seq<usize>, s: Set<usize>) -> bool {
    &&& forall|a: int, b: int| 0 <= a < b < o.len() ==> precedes(rs, #[trigger] o[a] as int, #[trigger] o[b] as int)
    &&& forall|k: int| 0 <= k < o.len() ==> s.contains(#[trigger] o[k])
    &&& forall|x: usize| #[trigger] s.contains(x) ==> o.contains(x)
}

/// The indices of the finished rollouts listed before `bound`.
pub open spec fn finished_below(rs: Seq<RolloutRecord>, bound: int) -> Set<usize> {
    Set::new(|x: usize| x < bound && x < rs.len() && is_terminal(rs[x as int]))
}

/// The finished rollouts, oldest first.
pub open spec fn finished_oldest_first(rs: Seq<RolloutRecord>) -> Seq<usize> {
    choose|o: Seq<usize>| lists_oldest_first(rs, o, finished_below(rs, rs.len() as int))
}

/// The names of the finished rollouts beyond the `limit` most recent ones,
/// oldest first.
pub open spec fn rollouts_to_prune(rs: Seq<RolloutRecord>, limit: usize) -> Seq<Seq<char>> {
    let o = finished_oldest_first(rs);
    if o.len() > limit {
        o.take(o.len() - limit).map_values(|i: usize| rs[i as int].name@)
    } else {
        Seq::empty()
    }
}

proof fn lemma_precedes_order(rs: Seq<RolloutRecord>, i: int, j: int, k: int)
    ensures
        !precedes(rs, i, i),
        precedes(rs, i, j) ==> !precedes(rs, j, i),
        precedes(rs, i, j) && precedes(rs, j, k) ==> precedes(rs, i, k),
        i != j ==> precedes(rs, i, j) || precedes(rs, j, i),
{
}

/// Two oldest-first listings of the same rollouts are the same.
pub proof fn lemma_oldest_first_unique(
    rs: Seq<RolloutRecord>,
    o1: Seq<usize>,
    o2: Seq<usize>,
    s: Set<usize>,
)
    requires
        lists_oldest_first(rs, o1, s),
        lists_oldest_first(rs, o2, s),
    ensures
        o1 == o2,
    decreases o1.len() + o2.len(),
{
    if o1.len() == 0 || o2.len() == 0 {
        if o1.len() > 0 {
            assert(s.contains(o1[0]));
            assert(o2.contains(o1[0]));
        }
        if o2.len() > 0 {
            assert(s.contains(o2[0]));
            assert(o1.contains(o2[0]));
        }
        assert(o1 =~= o2);
    } else {
        let m1 = o1.last();
        let m2 = o2.last();
        assert(s.contains(m1));
        assert(s.contains(m2));
        assert(o2.contains(m1));
        assert(o1.contains(m2));
        if m1 != m2 {
            let p = choose|p: int| 0 <= p < o2.len() && o2[p] == m1;
            let q = choose|q: int| 0 <= q < o1.len() && o1[q] == m2;
            assert(p != o2.len() - 1);
            assert(q != o1.len() - 1);
            assert(precedes(rs, m1 as int, m2 as int));
            assert(precedes(rs, m2 as int, m1 as int));
            lemma_precedes_order(rs, m1 as int, m2 as int, m1 as int);
        }
        let t = s.remove(m1);
        let p1 = o1.drop_last();
        let p2 = o2.drop_last();
        assert forall|k: int| 0 <= k < p1.len() implies t.contains(#[trigger] p1[k]) by {
            assert(precedes(rs, o1[k] as int, o1[o1.len() - 1] as int));
            lemma_precedes_order(rs, m1 as int, m1 as int, m1 as int);
        }
        assert forall|k: int| 0 <= k < p2.len() implies t.contains(#[trigger] p2[k]) by {
            assert(precedes(rs, o2[k] as int, o2[o2.len() - 1] as int));
            lemma_precedes_order(rs, m1 as int, m1 as int, m1 as int);
        }
        assert forall|x: usize| #[trigger] t.contains(x) implies p1.contains(x) by {
            let k = choose|k: int| 0 <= k < o1.len() && o1[k] == x;
            assert(p1[k] == x);
        }
        assert forall|x: usize| #[trigger] t.contains(x) implies p2.contains(x) by {
            let k = choose|k: int| 0 <= k < o2.len() && o2[k] == x;
            assert(p2[k] == x);
        }
        lemma_oldest_first_unique(rs, p1, p2, t);
        assert(o1 =~= p1.push(m1));
        assert(o2 =~= p2.push(m2));
    }
}

/// Where rollout `i` goes in an oldest-first listing: before the first
/// entry it precedes.
pub open spec fn insert_pos(rs: Seq<RolloutRecord>, o: Seq<usize>, i: int) -> int
    decreases o.len(),
{
    if o.len() == 0 {
        0
    } else if precedes(rs, i, o[0] as int) {
        0
    } else {
        1 + insert_pos(rs, o.drop_first(), i)
    }
}

proof fn lemma_insert_pos(rs: Seq<RolloutRecord>, o: Seq<usize>, i: int)
    ensures
        0 <= insert_pos(rs, o, i) <= o.len(),
        forall|k: int| 0 <= k < insert_pos(rs, o, i) ==> !precedes(rs, i, #[trigger] o[k] as int),
        insert_pos(rs, o, i) < o.len() ==> precedes(rs, i, o[insert_pos(rs, o, i)] as int),
    decreases o.len(),
{
    if o.len() > 0 && !precedes(rs, i, o[0] as int) {
        lemma_insert_pos(rs, o.drop_first(), i);
        assert forall|k: int| 0 <= k < insert_pos(rs, o, i) implies !precedes(rs, i, #[trigger] o[k] as int) by {
            if k > 0 {
                assert(o[k] == o.drop_first()[k - 1]);
            }
        }
    }
}

/// Inserting a new rollout at its place keeps a listing oldest first.
proof fn lemma_insert_keeps_listing(rs: Seq<RolloutRecord>, o: Seq<usize>, s: Set<usize>, i: usize)
    requires
        lists_oldest_first(rs, o, s),
        forall|k: int| 0 <= k < o.len() ==> #[trigger] o[k] < i,
    ensures
        lists_oldest_first(rs, o.insert(insert_pos(rs, o, i as int), i), s.insert(i)),
        forall|k: int| 0 <= k < o.insert(insert_pos(rs, o, i as int), i).len() ==> #[trigger] o.insert(
            insert_pos(rs, o, i as int),
            i,
        )[k] <= i,
{
    let p = insert_pos(rs, o, i as int);
    lemma_insert_pos(rs, o, i as int);
    let r = o.insert(p, i);
    assert forall|k: int| 0 <= k < p implies precedes(rs, #[trigger] o[k] as int, i as int) by {
        lemma_precedes_order(rs, o[k] as int, i as int, i as int);
    }
    assert forall|k: int| p <= k < o.len() implies precedes(rs, i as int, #[trigger] o[k] as int) by {
        if k > p {
            assert(precedes(rs, o[p] as int, o[k] as int));
            lemma_precedes_order(rs, i as int, o[p] as int, o[k] as int);
        }
    }
    assert forall|a: int, b: int| 0 <= a < b < r.len() implies precedes(rs, #[trigger] r[a] as int, #[trigger] r[b] as int) by {
        if b < p {
            assert(r[a] == o[a] && r[b] == o[b]);
        } else if b == p {
            assert(r[a] == o[a]);
        } else if a < p {
            assert(r[a] == o[a] && r[b] == o[b - 1]);
        } else if a == p {
            assert(r[b] == o[b - 1]);
        } else {
            assert(r[a] == o[a - 1] && r[b] == o[b - 1]);
        }
    }
    assert forall|k: int| 0 <= k < r.len() implies s.insert(i).contains(#[trigger] r[k]) && r[k] <= i by {
        if k < p {
            assert(r[k] == o[k]);
        } else if k > p {
            assert(r[k] == o[k - 1]);
        }
    }
    assert forall|x: usize| #[trigger] s.insert(i).contains(x) implies r.contains(x) by {
        if x == i {
            assert(r[p] == i);
        } else {
            let k = choose|k: int| 0 <= k < o.len() && o[k] == x;
            if k < p {
                assert(r[k] == x);
            } else {
                assert(r[k + 1] == x);
            }
        }
    }
}

/// The finished rollouts among the first `n` can be listed oldest first.
proof fn lemma_listing_exists(rs: Seq<RolloutRecord>, n: int) -> (o: Seq<usize>)
    requires
        0 <= n <= rs.len(),
        rs.len() <= usize::MAX,
    ensures
        lists_oldest_first(rs, o, finished_below(rs, n)),
        forall|k: int| 0 <= k < o.len() ==> #[trigger] o[k] < n,
    decreases n,
{
    if n == 0 {
        assert(finished_below(rs, 0) =~= Set::<usize>::empty());
        Seq::empty()
    } else {
        let o = lemma_listing_exists(rs, n - 1);
        let i = (n - 1) as usize;
        if is_terminal(rs[n - 1]) {
            lemma_insert_keeps_listing(rs, o, finished_below(rs, n - 1), i);
            assert(finished_below(rs, n - 1).insert(i) =~= finished_below(rs, n));
            o.insert(insert_pos(rs, o, n - 1), i)
        } else {
            assert(finished_below(rs, n - 1) =~= finished_below(rs, n));
            o
        }
    }
}

/// Pruning takes the oldest finished Rollouts: they are listed oldest first
/// (by creation time, then by listing order), all but the `limit` newest
/// are pruned, each pruned one is finished and older than every finished
/// one that is kept, and unfinished Rollouts are never pruned.
pub proof fn law_pruning_takes_the_oldest_finished(rs: Seq<RolloutRecord>, limit: usize)
    requires
        rs.len() <= usize::MAX,
    ensures
        lists_oldest_first(rs, finished_oldest_first(rs), finished_below(rs, rs.len() as int)),
        finished_oldest_first(rs).len() == finished_below(rs, rs.len() as int).len(),
        rollouts_to_prune(rs, limit).len() == if finished_below(rs, rs.len() as int).len() > limit {
            finished_below(rs, rs.len() as int).len() - limit
        } else {
            0
        },
        forall|k: int|
            0 <= k < rollouts_to_prune(rs, limit).len() ==> {
                let x = finished_oldest_first(rs)[k] as int;
                &&& 0 <= x < rs.len()
                &&& is_terminal(rs[x])
                &&& #[trigger] rollouts_to_prune(rs, limit)[k] == rs[x].name@
            },
        forall|k: int, j: int|
            0 <= k < rollouts_to_prune(rs, limit).len() <= j < finished_oldest_first(rs).len()
                ==> precedes(rs, #[trigger] finished_oldest_first(rs)[k] as int, #[trigger] finished_oldest_first(rs)[j] as int),
{
    let f = finished_below(rs, rs.len() as int);
    let w = lemma_listing_exists(rs, rs.len() as int);
    let o = finished_oldest_first(rs);
    assert(lists_oldest_first(rs, o, f));
    assert(o.no_duplicates()) by {
        assert forall|a: int, b: int| 0 <= a < o.len() && 0 <= b < o.len() && a != b implies o[a] != o[b] by {
            if a < b {
                assert(precedes(rs, o[a] as int, o[b] as int));
                lemma_precedes_order(rs, o[a] as int, o[a] as int, o[a] as int);
            } else {
                assert(precedes(rs, o[b] as int, o[a] as int));
                lemma_precedes_order(rs, o[b] as int, o[b] as int, o[b] as int);
            }
        }
    }
    o.unique_seq_to_set();
    assert(o.to_set() =~= f);
    let n = rollouts_to_prune(rs, limit).len();
    assert forall|k: int| 0 <= k < n implies {
        let x = o[k] as int;
        &&& 0 <= x < rs.len()
        &&& is_terminal(rs[x])
        &&& #[trigger] rollouts_to_prune(rs, limit)[k] == rs[x].name@
    } by {
        assert(f.contains(o[k]));
    }
}

fn created_before_exec(a: &Option<(i64, u32)>, b: &Option<(i64, u32)>) -> (r: bool)
    ensures
        r == created_before(*a, *b),
{
    match (a, b) {
        (None, Some(_)) => true,
        (Some(x), Some(y)) => x.0 < y.0 || (x.0 == y.0 && x.1 < y.1),
        _ => false,
    }
}

fn is_terminal_exec(r: &RolloutRecord) -> (b: bool)
    ensures
        b == is_terminal(*r),
{
    match &r.phase {
        Some(p) => {
            let completed = "Completed".to_owned();
            let failed = "Failed".to_owned();
            *p == completed || *p == failed
        },
        None => false,
    }
}

/// The indices of the finished rollouts, oldest first.
fn finished_in_age_order(rs: &Vec<RolloutRecord>) -> (o: Vec<usize>)
    ensures
        lists_oldest_first(rs@, o@, finished_below(rs@, rs@.len() as int)),
        o@ == finished_oldest_first(rs@),
{
    let mut o: Vec<usize> = Vec::new();
    for i in 0..rs.len()
        invariant
            lists_oldest_first(rs@, o@, finished_below(rs@, i as int)),
            forall|k: int| 0 <= k < o@.len() ==> #[trigger] o@[k] < i,
    {
        if is_terminal_exec(&rs[i]) {
            let mut p: usize = 0;
            while p < o.len() && !created_before_exec(&rs[i].created, &rs[o[p]].created)
                invariant
                    p <= o@.len(),
                    i < rs@.len(),
                    lists_oldest_first(rs@, o@, finished_below(rs@, i as int)),
                    forall|k: int| 0 <= k < o@.len() ==> #[trigger] o@[k] < i,
                    forall|k: int| 0 <= k < p ==> !created_before(
                        rs@[i as int].created,
                        rs@[#[trigger] o@[k] as int].created,
                    ),
                decreases o@.len() - p,
            {
                p = p + 1;
            }
            let ghost o0 = o@;
            o.insert(p, i);
            proof {
                let s1 = finished_below(rs@, i + 1);
                assert(o@ =~= o0.insert(p as int, i));
                assert forall|a: int, b: int| 0 <= a < b < o@.len() implies precedes(
                    rs@,
                    #[trigger] o@[a] as int,
                    #[trigger] o@[b] as int,
                ) by {
                    if a < p && b < p {
                        assert(precedes(rs@, o0[a] as int, o0[b] as int));
                    } else if a < p && b == p {
                        assert(!created_before(rs@[i as int].created, rs@[o0[a] as int].created));
                    } else if a < p && b > p {
                        assert(precedes(rs@, o0[a] as int, o0[b - 1] as int));
                    } else if a == p {
                        assert(created_before(rs@[i as int].created, rs@[o0[p as int] as int].created));
                        if b - 1 > p {
                            assert(precedes(rs@, o0[p as int] as int, o0[b - 1] as int));
                        }
                    } else {
                        assert(precedes(rs@, o0[a - 1] as int, o0[b - 1] as int));
                    }
                }
                assert forall|k: int| 0 <= k < o@.len() implies s1.contains(#[trigger] o@[k]) by {
                    if k < p {
                        assert(o@[k] == o0[k]);
                    } else if k > p {
                        assert(o@[k] == o0[k - 1]);
                    }
                }
                assert forall|x: usize| #[trigger] s1.contains(x) implies o@.contains(x) by {
                    if x == i {
                        assert(o@[p as int] == i);
                    } else {
                        assert(finished_below(rs@, i as int).contains(x));
                        let k = choose|k: int| 0 <= k < o0.len() && o0[k] == x;
                        if k < p {
                            assert(o@[k] == x);
                        } else {
                            assert(o@[k + 1] == x);
                        }
                    }
                }
            }
        } else {
            proof {
                assert(finished_below(rs@, i + 1) =~= finished_below(rs@, i as int));
            }
        }
    }
    proof {
        let s = finished_below(rs@, rs@.len() as int);
        let c = finished_oldest_first(rs@);
        assert(lists_oldest_first(rs@, o@, s));
        lemma_oldest_first_unique(rs@, o@, c, s);
    }
    o
}

/// The names of the finished rollouts beyond the `limit` most recent ones,
/// oldest first: those the history pruning deletes.
pub fn select_rollouts_to_prune(rollouts: &Vec<RolloutRecord>, limit: usize) -> (r: Vec<String>)
    ensures
        r@.map_values(|n: String| n@) == rollouts_to_prune(rollouts@, limit),
{
    let o = finished_in_age_order(rollouts);
    let mut r: Vec<String> = Vec::new();
    if o.len() > limit {
        let count = o.len() - limit;
        for k in 0..count
            invariant
                count == o@.len() - limit,
                count <= o@.len(),
                o@ == finished_oldest_first(rollouts@),
                lists_oldest_first(rollouts@, o@, finished_below(rollouts@, rollouts@.len() as int)),
                r@.map_values(|n: String| n@) == o@.take(k as int).map_values(
                    |i: usize| rollouts@[i as int].name@,
                ),
        {
            let idx = o[k];
            assert(finished_below(rollouts@, rollouts@.len() as int).contains(o@[k as int]));
            let ghost before = r@;
            let name = rollouts[idx].name.clone();
            r.push(name);
            assert(r@.map_values(|n: String| n@) =~= before.map_values(|n: String| n@).push(name@));
            assert(o@.take(k + 1).map_values(|i: usize| rollouts@[i as int].name@) =~= o@.take(
                k as int,
            ).map_values(|i: usize| rollouts@[i as int].name@).push(rollouts@[idx as int].name@));
        }
    } else {
        assert(r@.map_values(|n: String| n@) =~= Seq::<Seq<char>>::empty());
    }
    r
}

// ---------------------------------------------------------------------------
// The reconciler
// ---------------------------------------------------------------------------

/// A Schema resource as the reconciler reads it.
#[derive(Debug)]
pub struct SchemaResource {
    pub name: String,
    pub namespace: Option<String>,
    pub generation: Option<i64>,
    pub spec: SchemaSpec,
}

/// The outcome of reading a Rollout by name.
#[derive(Debug)]
pub enum RolloutLookup {
    Found,
    /// The API answered 404.
    Missing,
    Failed(Error),
}

#[derive(Debug)]
pub enum SchemaAction {
    ResolveValue { source: ValueOrRefSource, namespace: String },
    GetRollout { namespace: String, name: String },
    /// Create the Rollout, labelled `schema=<schema name>` and controlled by
    /// the Schema.
    CreateRollout { namespace: String, name: String, spec: RolloutSpec, schema_label: String },
    ListRollouts { namespace: String, label_selector: String },
    /// Delete these Rollouts; a failed deletion is ignored.
    DeleteRollouts { namespace: String, names: Vec<String> },
    PatchStatus { namespace: String, name: String, status: SchemaStatus },
    Finish(Result<ReconcileAction, Error>),
}

#[derive(Debug)]
pub enum SchemaEvent {
    TextResolved(Result<String, Error>),
    RolloutFetched(RolloutLookup),
    RolloutCreated(Result<(), Error>),
    RolloutsListed(Result<Vec<RolloutRecord>, Error>),
    RolloutsDeleted,
    StatusPatched(Result<(), Error>),
}

#[derive(Clone, Copy, Debug, PartialEq, Eq, Structural)]
pub enum SchemaPhase {
    ResolvingText,
    FetchingRollout,
    CreatingRollout,
    ListingRollouts,
    Pruning,
    Reporting,
    Done,
}

#[derive(Debug)]
pub struct SchemaReconciler {
    pub resource: SchemaResource,
    /// The namespace of the resource.
    pub namespace: String,
    pub resolver: SchemaTextResolver,
    /// The version hash of the rendered schema.
    pub hash: String,
    /// The name of the Rollout of the current generation.
    pub rollout_name: String,
    /// The rendered schema text.
    pub text: String,
    pub phase: SchemaPhase,
}

impl SchemaReconciler {
    pub open spec fn accepts(&self, event: SchemaEvent) -> bool {
        match self.phase {
            SchemaPhase::ResolvingText => event is TextResolved && self.resolver.well_formed()
                && self.resolver.waiting(),
            SchemaPhase::FetchingRollout => event is RolloutFetched,
            SchemaPhase::CreatingRollout => event is RolloutCreated,
            SchemaPhase::ListingRollouts => event is RolloutsListed,
            SchemaPhase::Pruning => event is RolloutsDeleted,
            SchemaPhase::Reporting => event is StatusPatched,
            SchemaPhase::Done => false,
        }
    }

    /// How many actions are left at most.
    pub open spec fn remaining(&self) -> nat {
        match self.phase {
            SchemaPhase::ResolvingText => 5 + self.resolver.pending(),
            SchemaPhase::FetchingRollout => 5,
            SchemaPhase::CreatingRollout => 4,
            SchemaPhase::ListingRollouts => 3,
            SchemaPhase::Pruning => 2,
            SchemaPhase::Reporting => 1,
            SchemaPhase::Done => 0,
        }
    }
}

/// The generation a Schema's Rollouts are named and made for: its own, or 1.
pub open spec fn rollout_generation(r: SchemaResource) -> i64 {
    match r.generation {
        Some(g) => g,
        None => 1,
    }
}

/// `<schema>-rollout-<generation>`
pub open spec fn rollout_name_of(r: SchemaResource) -> Seq<char> {
    r.name@ + "-rollout-"@ + decimal(rollout_generation(r) as int)
}

/// How many finished Rollouts are kept: the spec's limit, or 10.
pub open spec fn history_limit(spec: SchemaSpec) -> usize {
    match spec.revision_history_limit {
        Some(l) => l,
        None => 10,
    }
}

/// `t` and `a` list the Rollouts labelled with the Schema's name.
pub open spec fn lists_rollouts(s: SchemaReconciler, t: SchemaReconciler, a: SchemaAction) -> bool {
    &&& t.phase == SchemaPhase::ListingRollouts
    &&& a matches SchemaAction::ListRollouts { namespace, label_selector }
    &&& namespace == s.namespace
    &&& label_selector@ == "schema="@ + s.resource.name@
}

/// `t` and `a` record the hash and the Rollout name in the status.
pub open spec fn reports_status(s: SchemaReconciler, t: SchemaReconciler, a: SchemaAction) -> bool {
    &&& t.phase == SchemaPhase::Reporting
    &&& a matches SchemaAction::PatchStatus { namespace, name, status }
    &&& namespace == s.namespace
    &&& name == s.resource.name
    &&& status.current_version_hash == Some(s.hash)
    &&& status.active_rollout_name == Some(s.rollout_name)
    &&& status.observed_generation == s.resource.generation
}

/// The step from `s` on `e` to `t` with action `a`.
pub open spec fn schema_next(s: SchemaReconciler, e: SchemaEvent, t: SchemaReconciler, a: SchemaAction) -> bool {
    &&& t.resource == s.resource
    &&& t.namespace == s.namespace
    &&& match (s.phase, e) {
        (SchemaPhase::ResolvingText, SchemaEvent::TextResolved(Err(_))) => a
            == SchemaAction::Finish(Ok(ReconcileAction::Requeue(30))),
        (SchemaPhase::ResolvingText, SchemaEvent::TextResolved(Ok(v))) => {
            &&& s.resolver.advanced(t.resolver, v)
            &&& if t.resolver.waiting() {
                &&& t.phase == SchemaPhase::ResolvingText
                &&& a matches SchemaAction::ResolveValue { source, namespace }
                &&& t.resolver.requests(TextStep::Resolve { source, namespace })
            } else {
                &&& t.phase == SchemaPhase::FetchingRollout
                &&& t.text@ == t.resolver.text()
                &&& t.hash@ == schema_hash_of(t.text@)
                &&& t.rollout_name@ == rollout_name_of(s.resource)
                &&& a == SchemaAction::GetRollout { namespace: s.namespace, name: t.rollout_name }
            }
        },
        (SchemaPhase::FetchingRollout, SchemaEvent::RolloutFetched(RolloutLookup::Failed(err))) => a
            == SchemaAction::Finish(Err(err)),
        (SchemaPhase::FetchingRollout, SchemaEvent::RolloutFetched(RolloutLookup::Found)) => {
            &&& t.hash == s.hash
            &&& t.rollout_name == s.rollout_name
            &&& lists_rollouts(s, t, a)
        },
        (SchemaPhase::FetchingRollout, SchemaEvent::RolloutFetched(RolloutLookup::Missing)) => {
            &&& t.phase == SchemaPhase::CreatingRollout
            &&& t.hash == s.hash
            &&& t.rollout_name == s.rollout_name
            &&& a matches SchemaAction::CreateRollout { namespace, name, spec, schema_label }
            &&& namespace == s.namespace
            &&& name == s.rollout_name
            &&& spec.schema_ref.name == s.resource.name
            &&& spec.schema_ref.namespace == Some(s.namespace)
            &&& spec.generation == rollout_generation(s.resource)
            &&& spec.desired_schema == Some(s.text)
            &&& schema_label == s.resource.name
        },
        (SchemaPhase::CreatingRollout, SchemaEvent::RolloutCreated(Err(err))) => a
            == SchemaAction::Finish(Err(err)),
        (SchemaPhase::CreatingRollout, SchemaEvent::RolloutCreated(Ok(()))) => {
            &&& t.hash == s.hash
            &&& t.rollout_name == s.rollout_name
            &&& lists_rollouts(s, t, a)
        },
        (SchemaPhase::ListingRollouts, SchemaEvent::RolloutsListed(Err(err))) => a
            == SchemaAction::Finish(Err(err)),
        (SchemaPhase::ListingRollouts, SchemaEvent::RolloutsListed(Ok(rs))) => {
            let doomed = rollouts_to_prune(rs@, history_limit(s.resource.spec));
            &&& t.hash == s.hash
            &&& t.rollout_name == s.rollout_name
            &&& if doomed.len() > 0 {
                &&& t.phase == SchemaPhase::Pruning
                &&& a matches SchemaAction::DeleteRollouts { namespace, names }
                &&& namespace == s.namespace
                &&& names@.map_values(|n: String| n@) == doomed
            } else {
                reports_status(s, t, a)
            }
        },
        (SchemaPhase::Pruning, SchemaEvent::RolloutsDeleted) => reports_status(s, t, a),
        (SchemaPhase::Reporting, SchemaEvent::StatusPatched(Ok(()))) => a == SchemaAction::Finish(
            Ok(ReconcileAction::Requeue(300)),
        ),
        (SchemaPhase::Reporting, SchemaEvent::StatusPatched(Err(err))) => a == SchemaAction::Finish(
            Err(err),
        ),
        _ => false,
    }
}

/// Starts the reconciliation of a Schema: a cluster-scoped resource is an
/// internal error; otherwise its schema source is resolved first.
pub fn start(resource: SchemaResource) -> (r: (SchemaReconciler, SchemaAction))
    ensures
        r.0.resource == resource,
        match resource.namespace {
            None => {
                &&& r.0.phase == SchemaPhase::Done
                &&& r.1 matches SchemaAction::Finish(Err(Error::InternalError(m)))
                &&& m@ == "Schema is cluster-scoped"@
            },
            Some(ns) => {
                &&& r.0.phase == SchemaPhase::ResolvingText
                &&& r.0.namespace == ns
                &&& r.0.resolver.well_formed()
                &&& r.0.resolver.waiting()
                &&& r.0.resolver.raw is None
                &&& r.0.resolver.namespace == ns
                &&& r.0.resolver.schema == resource.spec.schema
                &&& r.0.resolver.variables@ == spec_variables(resource.spec)
                &&& r.1 == SchemaAction::ResolveValue { source: resource.spec.schema, namespace: ns }
            },
        },
{
    match clone_opt_string(&resource.namespace) {
        None => {
            let (resolver, _) = start_schema_text(&resource.spec, &String::new());
            (
                SchemaReconciler {
                    resource,
                    namespace: String::new(),
                    resolver,
                    hash: String::new(),
                    rollout_name: String::new(),
                    text: String::new(),
                    phase: SchemaPhase::Done,
                },
                SchemaAction::Finish(Err(Error::InternalError("Schema is cluster-scoped".to_owned()))),
            )
        },
        Some(ns) => {
            let (resolver, step) = start_schema_text(&resource.spec, &ns);
            let action = match step {
                TextStep::Resolve { source, namespace } => SchemaAction::ResolveValue { source, namespace },
                TextStep::Done(_) => SchemaAction::Finish(Ok(ReconcileAction::AwaitChange)),
            };
            (
                SchemaReconciler {
                    resource,
                    namespace: ns,
                    resolver,
                    hash: String::new(),
                    rollout_name: String::new(),
                    text: String::new(),
                    phase: SchemaPhase::ResolvingText,
                },
                action,
            )
        },
    }
}

impl SchemaReconciler {
    fn list_rollouts(&mut self) -> (a: SchemaAction)
        ensures
            final(self).resource == old(self).resource,
            final(self).namespace == old(self).namespace,
            final(self).hash == old(self).hash,
            final(self).rollout_name == old(self).rollout_name,
            lists_rollouts(*old(self), *final(self), a),
    {
        self.phase = SchemaPhase::ListingRollouts;
        SchemaAction::ListRollouts {
            namespace: self.namespace.clone(),
            label_selector: concat_strs("schema=", self.resource.name.as_str()),
        }
    }

    fn report(&mut self) -> (a: SchemaAction)
        ensures
            final(self).resource == old(self).resource,
            final(self).namespace == old(self).namespace,
            final(self).hash == old(self).hash,
            final(self).rollout_name == old(self).rollout_name,
            reports_status(*old(self), *final(self), a),
    {
        self.phase = SchemaPhase::Reporting;
        SchemaAction::PatchStatus {
            namespace: self.namespace.clone(),
            name: self.resource.name.clone(),
            status: SchemaStatus {
                current_version_hash: Some(self.hash.clone()),
                active_rollout_name: Some(self.rollout_name.clone()),
                observed_generation: self.resource.generation,
            },
        }
    }

    fn on_text(&mut self, v: String) -> (a: SchemaAction)
        requires
            old(self).phase == SchemaPhase::ResolvingText,
            old(self).resolver.well_formed(),
            old(self).resolver.waiting(),
        ensures
            final(self).phase == SchemaPhase::ResolvingText ==> final(self).resolver.pending()
                < old(self).resolver.pending(),
            final(self).phase == SchemaPhase::ResolvingText || final(self).phase
                == SchemaPhase::FetchingRollout,
            final(self).phase == SchemaPhase::ResolvingText ==> final(self).resolver.well_formed(),
            schema_next(*old(self), SchemaEvent::TextResolved(Ok(v)), *final(self), a),
    {
        let ghost v0 = v;
        let step = self.resolver.resolved(Ok(v));
        match step {
            TextStep::Resolve { source, namespace } => SchemaAction::ResolveValue { source, namespace },
            TextStep::Done(Ok(text)) => {
                self.hash = schema_hash(text.as_str());
                self.text = text;
                let generation = match self.resource.generation {
                    Some(g) => g,
                    None => 1,
                };
                self.rollout_name = concat3_strs(
                    self.resource.name.as_str(),
                    "-rollout-",
                    decimal_string(generation).as_str(),
                );
                self.phase = SchemaPhase::FetchingRollout;
                SchemaAction::GetRollout { namespace: self.namespace.clone(), name: self.rollout_name.clone() }
            },
            TextStep::Done(Err(e)) => {
                // not reached: a value was given
                self.phase = SchemaPhase::Done;
                SchemaAction::Finish(Err(e))
            },
        }
    }

    /// Takes the outcome of the last action and gives the next action.
    ///
    /// The schema text is resolved and interpolated; a failure there is
    /// retried after 30 seconds. The version hash is computed, the Rollout
    /// `<schema>-rollout-<generation>` read and created when the API answers
    /// that it is missing, with the rendered text as its schema snapshot. The finished Rollouts beyond the history limit
    /// (10 when the spec sets none) are deleted, oldest first, and the
    /// status records the hash and the Rollout's name. The reconciliation is
    /// requeued after 300 seconds; a failed Kubernetes call ends it with
    /// its error.
    pub fn step(&mut self, event: SchemaEvent) -> (action: SchemaAction)
        requires
            old(self).accepts(event),
        ensures
            action is Finish <==> final(self).phase == SchemaPhase::Done,
            !(action is Finish) ==> final(self).remaining() < old(self).remaining(),
            final(self).phase == SchemaPhase::ResolvingText ==> final(self).resolver.well_formed(),
            schema_next(*old(self), event, *final(self), action),
    {
        match (self.phase, event) {
            (SchemaPhase::ResolvingText, SchemaEvent::TextResolved(Err(_))) => {
                self.phase = SchemaPhase::Done;
                SchemaAction::Finish(Ok(ReconcileAction::Requeue(30)))
            },
            (SchemaPhase::ResolvingText, SchemaEvent::TextResolved(Ok(v))) => self.on_text(v),
            (SchemaPhase::FetchingRollout, SchemaEvent::RolloutFetched(RolloutLookup::Failed(err))) => {
                self.phase = SchemaPhase::Done;
                SchemaAction::Finish(Err(err))
            },
            (SchemaPhase::FetchingRollout, SchemaEvent::RolloutFetched(RolloutLookup::Found)) => {
                self.list_rollouts()
            },
            (SchemaPhase::FetchingRollout, SchemaEvent::RolloutFetched(RolloutLookup::Missing)) => {
                self.phase = SchemaPhase::CreatingRollout;
                let ns = self.namespace.clone();
                SchemaAction::CreateRollout {
                    namespace: self.namespace.clone(),
                    name: self.rollout_name.clone(),
                    spec: RolloutSpec {
                        schema_ref: LocalObjectReference { name: self.resource.name.clone(), namespace: Some(ns) },
                        generation: match self.resource.generation {
                            Some(g) => g,
                            None => 1,
                        },
                        desired_schema: Some(self.text.clone()),
                    },
                    schema_label: self.resource.name.clone(),
                }
            },
            (SchemaPhase::CreatingRollout, SchemaEvent::RolloutCreated(Err(err))) => {
                self.phase = SchemaPhase::Done;
                SchemaAction::Finish(Err(err))
            },
            (SchemaPhase::CreatingRollout, SchemaEvent::RolloutCreated(Ok(()))) => self.list_rollouts(),
            (SchemaPhase::ListingRollouts, SchemaEvent::RolloutsListed(Err(err))) => {
                self.phase = SchemaPhase::Done;
                SchemaAction::Finish(Err(err))
            },
            (SchemaPhase::ListingRollouts, SchemaEvent::RolloutsListed(Ok(rs))) => {
                let limit = match self.resource.spec.revision_history_limit {
                    Some(l) => l,
                    None => 10,
                };
                let names = select_rollouts_to_prune(&rs, limit);
                if names.len() > 0 {
                    self.phase = SchemaPhase::Pruning;
                    SchemaAction::DeleteRollouts { namespace: self.namespace.clone(), names }
                } else {
                    self.report()
                }
            },
            (SchemaPhase::Pruning, SchemaEvent::RolloutsDeleted) => self.report(),
            (SchemaPhase::Reporting, SchemaEvent::StatusPatched(Ok(()))) => {
                self.phase = SchemaPhase::Done;
                SchemaAction::Finish(Ok(ReconcileAction::Requeue(300)))
            },
            (SchemaPhase::Reporting, SchemaEvent::StatusPatched(Err(err))) => {
                self.phase = SchemaPhase::Done;
                SchemaAction::Finish(Err(err))
            },
            _ => {
                // not reached: `accepts` rules every other pair out
                self.phase = SchemaPhase::Done;
                SchemaAction::Finish(Ok(ReconcileAction::AwaitChange))
            },
        }
    }
}

/// What the runtime does after a failed Schema reconciliation: retry after
/// 15 seconds.
pub fn error_policy(_error: &Error) -> (r: ReconcileAction)
    ensures
        r == ReconcileAction::Requeue(15),
{
    ReconcileAction::Requeue(15)
}

} // verus!
