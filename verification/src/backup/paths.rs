use vstd::prelude::*;

use crate::backup::transaction::BackupTransactionError;
use crate::bytes::bytes_equal;
use vstd::string::StringSliceAdditionalSpecFns;

verus! {

// ---------------------------------------------------------------------------
// The path grammar
//
// A relative path is a byte string split on `/`. Empty segments (from `a//b`
// or a trailing `/`) and `.` segments after the first are dropped, as the
// platform path parser does. A path is refused when it is absolute (its first
// segment is empty), starts with `.`, contains `..` anywhere, contains a
// backslash or a NUL byte, or names the private journal directory as its
// first component.
// ---------------------------------------------------------------------------

/// Splits `s` on every `/` byte; the result always has at least one segment.
pub open spec fn split_slash(s: Seq<u8>) -> Seq<Seq<u8>>
    decreases s.len(),
{
    if s.len() == 0 {
        seq![Seq::<u8>::empty()]
    } else {
        let prev = split_slash(s.drop_last());
        if s.last() == 0x2fu8 {
            prev.push(Seq::<u8>::empty())
        } else {
            prev.update(prev.len() - 1, prev.last().push(s.last()))
        }
    }
}

/// The segment `.`.
pub open spec fn is_dot(seg: Seq<u8>) -> bool {
    seg == seq![0x2eu8]
}

/// The segment `..`.
pub open spec fn is_dotdot(seg: Seq<u8>) -> bool {
    seg == seq![0x2eu8, 0x2eu8]
}

/// A segment that names a real component (not empty and not `.`).
pub open spec fn is_normal(seg: Seq<u8>) -> bool {
    seg.len() > 0 && !is_dot(seg)
}

/// The name of the private journal directory, `.idevice-journal`.
pub open spec fn journal_dir_name() -> Seq<u8> {
    seq![
        0x2eu8, 0x69u8, 0x64u8, 0x65u8, 0x76u8, 0x69u8, 0x63u8, 0x65u8,
        0x2du8, 0x6au8, 0x6fu8, 0x75u8, 0x72u8, 0x6eu8, 0x61u8, 0x6cu8,
    ]
}

/// The components kept from a list of segments, in order.
pub open spec fn normal_parts(segs: Seq<Seq<u8>>) -> Seq<Seq<u8>>
    decreases segs.len(),
{
    if segs.len() == 0 {
        seq![]
    } else {
        let prev = normal_parts(segs.drop_last());
        if is_normal(segs.last()) {
            prev.push(segs.last())
        } else {
            prev
        }
    }
}

/// Joins components with `/`.
pub open spec fn join_parts(parts: Seq<Seq<u8>>) -> Seq<u8>
    decreases parts.len(),
{
    if parts.len() == 0 {
        Seq::<u8>::empty()
    } else if parts.len() == 1 {
        parts[0]
    } else {
        join_parts(parts.drop_last()) + seq![0x2fu8] + parts.last()
    }
}

/// No backslash and no NUL byte.
pub open spec fn has_no_forbidden_bytes(s: Seq<u8>) -> bool {
    forall|k: int| 0 <= k < s.len() ==> #[trigger] s[k] != 0x5cu8 && s[k] != 0u8
}

/// The segment rules: not absolute, no leading `.`, no `..`, and the first
/// component is not the journal directory.
pub open spec fn segments_ok(segs: Seq<Seq<u8>>) -> bool {
    &&& segs.len() > 0
    &&& segs[0].len() > 0
    &&& !is_dot(segs[0])
    &&& segs[0] != journal_dir_name()
    &&& forall|j: int| 0 <= j < segs.len() ==> !is_dotdot(#[trigger] segs[j])
}

/// Whether a relative path is accepted. The empty path is the backup root and
/// is accepted only where `allow_empty` holds.
pub open spec fn relative_path_accepted(s: Seq<u8>, allow_empty: bool) -> bool {
    if s.len() == 0 {
        allow_empty
    } else {
        has_no_forbidden_bytes(s) && segments_ok(split_slash(s))
    }
}

/// The normalized form of an accepted path: its components joined by `/`.
pub open spec fn normalized_path(s: Seq<u8>) -> Seq<u8> {
    join_parts(normal_parts(split_slash(s)))
}

// ---------------------------------------------------------------------------
// Lemmas about the grammar
// ---------------------------------------------------------------------------

pub proof fn lemma_split_nonempty(s: Seq<u8>)
    ensures
        split_slash(s).len() >= 1,
    decreases s.len(),
{
    if s.len() > 0 {
        lemma_split_nonempty(s.drop_last());
    }
}

/// Appending bytes never changes a segment that was already closed by a `/`.
pub proof fn lemma_split_prefix_stable(p: Seq<u8>, q: Seq<u8>, j: int)
    requires
        0 <= j < split_slash(p).len() - 1,
    ensures
        split_slash(p + q).len() >= split_slash(p).len(),
        split_slash(p + q)[j] == split_slash(p)[j],
    decreases q.len(),
{
    if q.len() == 0 {
        assert(p + q =~= p);
    } else {
        lemma_split_prefix_stable(p, q.drop_last(), j);
        let pq = p + q;
        assert(pq.drop_last() =~= p + q.drop_last());
        lemma_split_nonempty(pq.drop_last());
    }
}

/// A segment list extended by one segment.
pub proof fn lemma_normal_parts_push(segs: Seq<Seq<u8>>, seg: Seq<u8>)
    ensures
        normal_parts(segs.push(seg)) == (if is_normal(seg) {
            normal_parts(segs).push(seg)
        } else {
            normal_parts(segs)
        }),
{
    assert(segs.push(seg).drop_last() =~= segs);
}

pub proof fn lemma_join_push(parts: Seq<Seq<u8>>, x: Seq<u8>)
    ensures
        join_parts(parts.push(x)) == (if parts.len() == 0 {
            x
        } else {
            join_parts(parts) + seq![0x2fu8] + x
        }),
{
    assert(parts.push(x).drop_last() =~= parts);
    if parts.len() == 0 {
        assert(parts.push(x)[0] == x);
    }
}

pub proof fn lemma_normal_parts_len(segs: Seq<Seq<u8>>)
    ensures
        normal_parts(segs).len() <= segs.len(),
    decreases segs.len(),
{
    if segs.len() > 0 {
        lemma_normal_parts_len(segs.drop_last());
    }
}

pub proof fn lemma_join_len(parts: Seq<Seq<u8>>)
    ensures
        parts.len() > 0 ==> join_parts(parts).len() >= parts.len() - 1,
    decreases parts.len(),
{
    if parts.len() > 1 {
        lemma_join_len(parts.drop_last());
    }
}

// ---------------------------------------------------------------------------
// Executable helpers
// ---------------------------------------------------------------------------

/// The journal directory name as bytes.
pub fn journal_dir_bytes() -> (r: Vec<u8>)
    ensures
        r@ == journal_dir_name(),
{
    let r = vec![
        0x2eu8, 0x69u8, 0x64u8, 0x65u8, 0x76u8, 0x69u8, 0x63u8, 0x65u8,
        0x2du8, 0x6au8, 0x6fu8, 0x75u8, 0x72u8, 0x6eu8, 0x61u8, 0x6cu8,
    ];
    assert(r@ =~= journal_dir_name());
    r
}

fn invalid_backup_path(input: &str) -> (e: BackupTransactionError)
    ensures
        e matches BackupTransactionError::InvalidBackupPath(m) && m@ == input@,
{
    BackupTransactionError::InvalidBackupPath(input.to_owned())
}

/// Checks one finished segment and, when it is a component, appends it to
/// the normalized output.
fn close_segment(
    cur: &mut Vec<u8>,
    first: bool,
    out: &mut Vec<u8>,
    nparts: &mut usize,
    Ghost(done): Ghost<Seq<Seq<u8>>>,
    Ghost(limit): Ghost<int>,
) -> (ok: bool)
    requires
        old(out)@ == join_parts(normal_parts(done)),
        *old(nparts) as int == normal_parts(done).len(),
        first == (done.len() == 0),
        old(out)@.len() + old(cur)@.len() + (if *old(nparts) > 0 { 1int } else { 0int }) <= limit,
        *old(nparts) <= old(out)@.len(),
        limit <= usize::MAX,
    ensures
        ok == ((!first || (old(cur)@.len() > 0 && !is_dot(old(cur)@) && old(cur)@
            != journal_dir_name())) && !is_dotdot(old(cur)@)),
        ok ==> {
            &&& final(out)@ == join_parts(normal_parts(done.push(old(cur)@)))
            &&& *final(nparts) as int == normal_parts(done.push(old(cur)@)).len()
            &&& final(cur)@.len() == 0
            &&& final(out)@.len() + (if *final(nparts) > 0 { 1int } else { 0int }) <= old(out)@.len()
                + old(cur)@.len() + (if *old(nparts) > 0 { 1int } else { 0int }) + 1
            &&& *final(nparts) <= final(out)@.len()
        },
{
    let ghost seg = cur@;
    proof {
        lemma_normal_parts_push(done, seg);
        lemma_join_push(normal_parts(done), seg);
    }
    let len = cur.len();
    let dot = len == 1 && cur[0] == 0x2eu8;
    let dotdot = len == 2 && cur[0] == 0x2eu8 && cur[1] == 0x2eu8;
    proof {
        if len == 1 && cur@[0] == 0x2eu8 {
            assert(cur@ =~= seq![0x2eu8]);
        }
        if len == 2 && cur@[0] == 0x2eu8 && cur@[1] == 0x2eu8 {
            assert(cur@ =~= seq![0x2eu8, 0x2eu8]);
        }
    }
    assert(dot == is_dot(seg));
    assert(dotdot == is_dotdot(seg));
    if dotdot {
        return false;
    }
    if first {
        if len == 0 || dot {
            return false;
        }
        let journal = journal_dir_bytes();
        if bytes_equal(cur.as_slice(), journal.as_slice()) {
            return false;
        }
    }
    if len > 0 && !dot {
        if *nparts > 0 {
            out.push(0x2fu8);
        }
        out.append(cur);
        *nparts = *nparts + 1;
    } else {
        cur.clear();
    }
    true
}

/// Validates an untrusted relative path and returns its normalized bytes.
pub fn validate_relative_path(input: &str, allow_empty: bool) -> (res: Result<
    Vec<u8>,
    BackupTransactionError,
>)
    ensures
        match res {
            Ok(v) => relative_path_accepted(input.spec_bytes(), allow_empty) && v@
                == normalized_path(input.spec_bytes()),
            Err(e) => !relative_path_accepted(input.spec_bytes(), allow_empty) && (e matches BackupTransactionError::InvalidBackupPath(
                m,
            ) && m@ == input@),
        },
{
    let bytes = input.as_bytes();
    let n = bytes.len();
    if n == 0 {
        if allow_empty {
            let v: Vec<u8> = Vec::new();
            proof {
                assert(bytes@ =~= Seq::<u8>::empty());
                assert(split_slash(bytes@) =~= seq![Seq::<u8>::empty()]);
                assert(normal_parts(split_slash(bytes@)) =~= normal_parts(
                    Seq::<Seq<u8>>::empty().push(Seq::<u8>::empty()),
                ));
                lemma_normal_parts_push(Seq::<Seq<u8>>::empty(), Seq::<u8>::empty());
                assert(v@ =~= normalized_path(bytes@));
            }
            return Ok(v);
        } else {
            return Err(invalid_backup_path(input));
        }
    }
    let mut out: Vec<u8> = Vec::new();
    let mut cur: Vec<u8> = Vec::new();
    let mut nparts: usize = 0;
    let mut seg_count: usize = 0;
    let ghost mut done: Seq<Seq<u8>> = seq![];
    let mut i: usize = 0;
    assert(bytes@.subrange(0, 0) =~= Seq::<u8>::empty());
    while i < n
        invariant
            n == bytes@.len(),
            bytes@ == input.spec_bytes(),
            n > 0,
            0 <= i <= n,
            split_slash(bytes@.subrange(0, i as int)) == done.push(cur@),
            done.len() > 0 ==> (done[0].len() > 0 && !is_dot(done[0]) && done[0]
                != journal_dir_name()),
            forall|j: int| 0 <= j < done.len() ==> !is_dotdot(#[trigger] done[j]),
            forall|k: int| 0 <= k < i ==> #[trigger] bytes@[k] != 0x5cu8 && bytes@[k] != 0u8,
            out@ == join_parts(normal_parts(done)),
            nparts as int == normal_parts(done).len(),
            out@.len() + cur@.len() + (if nparts > 0 { 1int } else { 0int }) <= i,
            nparts <= out@.len(),
            seg_count as int == done.len(),
            seg_count <= i,
        decreases n - i,
    {
        let b = bytes[i];
        let ghost prefix = bytes@.subrange(0, i as int);
        let ghost next = bytes@.subrange(0, i + 1);
        assert(next.drop_last() =~= prefix);
        if b == 0x5cu8 || b == 0u8 {
            assert(!has_no_forbidden_bytes(bytes@));
            return Err(invalid_backup_path(input));
        }
        if b == 0x2fu8 {
            let ghost seg = cur@;
            let first_exec = seg_count == 0;
            let ok = close_segment(
                &mut cur,
                first_exec,
                &mut out,
                &mut nparts,
                Ghost(done),
                Ghost(n as int),
            );
            if !ok {
                proof {
                    // The segment just closed is segment `done.len()` of the whole path.
                    assert(split_slash(next) == done.push(seg).push(Seq::<u8>::empty()));
                    let rest = bytes@.subrange(i + 1, n as int);
                    assert(next + rest =~= bytes@);
                    lemma_split_prefix_stable(next, rest, done.len() as int);
                    if done.len() > 0 {
                        lemma_split_prefix_stable(next, rest, 0);
                    }
                }
                return Err(invalid_backup_path(input));
            }
            proof {
                assert(split_slash(next) == split_slash(prefix).push(Seq::<u8>::empty()));
                assert(cur@ =~= Seq::<u8>::empty());
                done = done.push(seg);
            }
            seg_count = seg_count + 1;
        } else {
            let ghost old_cur = cur@;
            cur.push(b);
            proof {
                lemma_split_nonempty(prefix);
                assert(split_slash(next) == split_slash(prefix).update(
                    split_slash(prefix).len() - 1,
                    split_slash(prefix).last().push(b),
                ));
                assert(done.push(old_cur).update(done.len() as int, old_cur.push(b)) =~= done.push(cur@));
            }
        }
        i = i + 1;
    }
    assert(bytes@.subrange(0, n as int) =~= bytes@);
    let ghost seg = cur@;
    let first_exec = seg_count == 0;
    let ok = close_segment(&mut cur, first_exec, &mut out, &mut nparts, Ghost(done), Ghost(n as int));
    if !ok {
        proof {
            assert(split_slash(bytes@)[done.len() as int] == seg);
        }
        return Err(invalid_backup_path(input));
    }
    proof {
        done = done.push(seg);
        assert(split_slash(bytes@) == done);
    }
    Ok(out)
}


// ---------------------------------------------------------------------------
// Splitting concatenations
// ---------------------------------------------------------------------------

/// A byte string without `/` is a single segment.
pub proof fn lemma_split_no_slash(a: Seq<u8>)
    requires
        forall|k: int| 0 <= k < a.len() ==> #[trigger] a[k] != 0x2fu8,
    ensures
        split_slash(a) == seq![a],
    decreases a.len(),
{
    if a.len() > 0 {
        lemma_split_no_slash(a.drop_last());
        assert(a.drop_last().push(a.last()) =~= a);
        assert(seq![a.drop_last()].update(0, a.drop_last().push(a.last())) =~= seq![a]);
    } else {
        assert(a =~= Seq::<u8>::empty());
    }
}

/// Splitting `a / b` gives the segments of `a` followed by those of `b`.
pub proof fn lemma_split_concat(a: Seq<u8>, b: Seq<u8>)
    ensures
        split_slash(a + seq![0x2fu8] + b) == split_slash(a) + split_slash(b),
    decreases b.len(),
{
    let a1 = a + seq![0x2fu8];
    if b.len() == 0 {
        assert(a1 + b =~= a1);
        assert(a1.drop_last() =~= a);
        assert(split_slash(b) =~= seq![Seq::<u8>::empty()]);
        assert(split_slash(a).push(Seq::<u8>::empty()) =~= split_slash(a) + seq![Seq::<u8>::empty()]);
    } else {
        lemma_split_concat(a, b.drop_last());
        lemma_split_nonempty(b.drop_last());
        assert((a1 + b).drop_last() =~= a1 + b.drop_last());
        let sa = split_slash(a);
        let sb = split_slash(b.drop_last());
        if b.last() == 0x2fu8 {
            assert((sa + sb).push(Seq::<u8>::empty()) =~= sa + sb.push(Seq::<u8>::empty()));
        } else {
            let both = sa + sb;
            assert(both.update(both.len() - 1, both.last().push(b.last())) =~= sa + sb.update(
                sb.len() - 1,
                sb.last().push(b.last()),
            ));
        }
    }
}

// ---------------------------------------------------------------------------
// Decimal formatting of operation ids
// ---------------------------------------------------------------------------

/// The ASCII decimal digits of `n`, most significant first, without padding.
pub open spec fn decimal_digits(n: nat) -> Seq<u8>
    decreases n,
{
    if n < 10 {
        seq![(0x30 + n) as u8]
    } else {
        decimal_digits(n / 10).push((0x30 + n % 10) as u8)
    }
}

/// `n` in decimal, left-padded with `0` to at least `width` digits.
pub open spec fn zero_padded_decimal(n: nat, width: nat) -> Seq<u8> {
    let d = decimal_digits(n);
    if d.len() >= width {
        d
    } else {
        Seq::new((width - d.len()) as nat, |_i: int| 0x30u8) + d
    }
}

pub proof fn lemma_decimal_digits_are_digits(n: nat)
    ensures
        decimal_digits(n).len() >= 1,
        forall|k: int|
            0 <= k < decimal_digits(n).len() ==> 0x30u8 <= #[trigger] decimal_digits(n)[k] <= 0x39u8,
    decreases n,
{
    if n >= 10 {
        lemma_decimal_digits_are_digits(n / 10);
    }
}

/// Appends `n` in decimal, zero-padded to at least `width` digits.
fn push_zero_padded_decimal(out: &mut Vec<u8>, n: u64, width: usize)
    requires
        width <= 64,
        old(out)@.len() + 64 <= usize::MAX,
    ensures
        final(out)@ == old(out)@ + zero_padded_decimal(n as nat, width as nat),
        final(out)@.len() <= old(out)@.len() + 64,
{
    let mut buf: [u8; 20] = [0u8; 20];
    let mut pos: usize = 20;
    let mut m: u64 = n;
    assert(pow10(0) == 1);
    assert(((20 - pos) as nat) == 0);
    assert(m as nat * pow10((20 - pos) as nat) == m as nat);
    loop
        invariant_except_break
            1 <= pos <= 20,
            m > 0 || pos == 20,
            pos == 20 ==> m == n,
            pos < 20 ==> decimal_digits(n as nat) == decimal_digits(m as nat) + buf@.subrange(
                pos as int,
                20,
            ),
            m as nat * pow10((20 - pos) as nat) <= n as nat,
        ensures
            0 <= pos < 20,
            decimal_digits(n as nat) == buf@.subrange(pos as int, 20),
        decreases m,
    {
        let d = (m % 10) as u8;
        proof {
            if m > 0 {
                lemma_pow10_step(m as nat, (20 - pos) as nat, n as nat);
            }
        }
        let ghost old_tail = buf@.subrange(pos as int, 20);
        let ghost old_m = m;
        buf[pos - 1] = 0x30u8 + d;
        pos = pos - 1;
        m = m / 10;
        proof {
            assert(buf@.subrange(pos as int, 20) =~= seq![(0x30 + old_m % 10) as u8] + old_tail);
            if old_m >= 10 {
                assert(decimal_digits(old_m as nat) == decimal_digits(m as nat).push(
                    (0x30 + old_m % 10) as u8,
                ));
                assert(decimal_digits(m as nat).push((0x30 + old_m % 10) as u8) + old_tail
                    =~= decimal_digits(m as nat) + buf@.subrange(pos as int, 20));
            } else {
                assert(decimal_digits(old_m as nat) =~= seq![(0x30 + old_m % 10) as u8]);
                if old_tail.len() == 0 {
                    assert(buf@.subrange(pos as int, 20) =~= seq![(0x30 + old_m % 10) as u8]);
                }
            }
        }
        if m == 0 {
            proof {
                if old_tail.len() > 0 {
                    assert(decimal_digits(n as nat) =~= buf@.subrange(pos as int, 20));
                }
            }
            break;
        }
    }
    let ndigits: usize = 20 - pos;
    let ghost start = out@;
    if ndigits < width {
        let mut k: usize = 0;
        while k < width - ndigits
            invariant
                ndigits < width <= 64,
                k <= width - ndigits,
                out@ == start + Seq::new(k as nat, |_i: int| 0x30u8),
                start.len() + 64 <= usize::MAX,
            decreases width - ndigits - k,
        {
            out.push(0x30u8);
            k = k + 1;
            assert(out@ =~= start + Seq::new(k as nat, |_i: int| 0x30u8));
        }
    }
    let ghost mid = out@;
    let mut j: usize = pos;
    while j < 20
        invariant
            pos <= j <= 20,
            out@ == mid + buf@.subrange(pos as int, j as int),
            mid.len() <= start.len() + 64,
            start.len() + 64 <= usize::MAX,
        decreases 20 - j,
    {
        out.push(buf[j]);
        j = j + 1;
        assert(out@ =~= mid + buf@.subrange(pos as int, j as int));
    }
    proof {
        let d = decimal_digits(n as nat);
        assert(d.len() == ndigits);
        if ndigits < width {
            assert(out@ =~= start + zero_padded_decimal(n as nat, width as nat));
        } else {
            assert(out@ =~= start + zero_padded_decimal(n as nat, width as nat));
        }
    }
}

/// Ten to the power `k`.
pub open spec fn pow10(k: nat) -> nat
    decreases k,
{
    if k == 0 {
        1
    } else {
        10 * pow10((k - 1) as nat)
    }
}

proof fn lemma_pow10_step(m: nat, k: nat, n: nat)
    requires
        m > 0,
        m * pow10(k) <= n,
        n <= u64::MAX,
    ensures
        k < 20,
        (m / 10) * pow10(k + 1) <= n,
        m / 10 > 0 ==> k + 1 < 20,
{
    lemma_pow10_big(k);
    lemma_pow10_big(k + 1);
    assert(m / 10 > 0 ==> (m / 10) * pow10(k + 1) >= pow10(k + 1)) by (nonlinear_arith);
    assert(m * pow10(k) >= pow10(k)) by (nonlinear_arith)
        requires
            m > 0,
    ;
    assert((m / 10) * pow10(k + 1) == (m / 10) * 10 * pow10(k)) by (nonlinear_arith);
    assert((m / 10) * 10 <= m) by (nonlinear_arith);
    assert((m / 10) * 10 * pow10(k) <= m * pow10(k)) by (nonlinear_arith)
        requires
            (m / 10) * 10 <= m,
    ;
}

proof fn lemma_pow10_big(k: nat)
    ensures
        k >= 20 ==> pow10(k) > u64::MAX,
        pow10(k) >= 1,
    decreases k,
{
    if k > 0 {
        lemma_pow10_big((k - 1) as nat);
        if k == 20 {
            reveal_with_fuel(pow10, 21);
            assert(pow10(20) == 100000000000000000000nat);
        }
    }
}


// ---------------------------------------------------------------------------
// Identifiers and validated paths
// ---------------------------------------------------------------------------

/// Monotonic operation id inside one backup transaction.
///
/// Later journal records refer back to the operation prepared earlier in the
/// same transaction by this id.
#[derive(Debug, Clone, Copy, PartialEq, Eq, PartialOrd, Ord, Structural)]
pub struct OpId(pub u64);

/// Identifier for one rollback-journal transaction, written in its `begin`
/// record. It is diagnostic only.
#[derive(Debug, PartialEq, Eq)]
pub struct TxId(pub String);

impl View for TxId {
    type V = Seq<char>;

    open spec fn view(&self) -> Seq<char> {
        self.0@
    }
}

impl Clone for TxId {
    fn clone(&self) -> (r: Self)
        ensures
            r@ == self@,
    {
        TxId(self.0.clone())
    }
}

/// Relative path to an item in the visible backup tree, validated and
/// normalized. The empty path stands for the backup directory itself.
#[derive(Debug, PartialEq, Eq)]
pub struct BackupPath(Vec<u8>);

impl View for BackupPath {
    type V = Seq<u8>;

    closed spec fn view(&self) -> Seq<u8> {
        self.0@
    }
}

impl Clone for BackupPath {
    fn clone(&self) -> (r: Self)
        ensures
            r@ == self@,
    {
        let v = self.0.clone();
        assert(v@ =~= self.0@);
        BackupPath(v)
    }
}

impl BackupPath {
    /// Parses an untrusted path into a safe backup-relative path.
    ///
    /// Accepts only paths that stay inside the backup directory: absolute
    /// paths, `..`, a leading `.`, backslashes, NUL bytes and the journal
    /// directory are refused. The empty string is accepted as the root.
    pub fn parse(input: &str) -> (res: Result<BackupPath, BackupTransactionError>)
        ensures
            match res {
                Ok(p) => relative_path_accepted(input.spec_bytes(), true) && p@ == normalized_path(
                    input.spec_bytes(),
                ),
                Err(e) => !relative_path_accepted(input.spec_bytes(), true) && (e matches BackupTransactionError::InvalidBackupPath(
                    m,
                ) && m@ == input@),
            },
    {
        match validate_relative_path(input, true) {
            Ok(v) => Ok(BackupPath(v)),
            Err(e) => Err(e),
        }
    }

    /// Parses a path that must name a concrete item; unlike `parse`, the
    /// backup root itself is refused.
    pub fn parse_item(input: &str) -> (res: Result<BackupPath, BackupTransactionError>)
        ensures
            match res {
                Ok(p) => relative_path_accepted(input.spec_bytes(), false) && p@ == normalized_path(
                    input.spec_bytes(),
                ),
                Err(e) => !relative_path_accepted(input.spec_bytes(), false) && (e matches BackupTransactionError::InvalidBackupPath(
                    m,
                ) && m@ == input@),
            },
    {
        match validate_relative_path(input, false) {
            Ok(v) => Ok(BackupPath(v)),
            Err(e) => Err(e),
        }
    }

    /// The path as stored in the journal, relative to the backup directory.
    pub fn as_relative_path(&self) -> (r: &[u8])
        ensures
            r@ == self@,
    {
        self.0.as_slice()
    }

    /// This path joined onto the visible backup directory: `ab/cdef` onto
    /// `/Backups/UDID` is `/Backups/UDID/ab/cdef`.
    pub fn join_to_backup_dir(&self, backup_dir: &[u8]) -> (r: Vec<u8>)
        ensures
            r@ == joined_path(backup_dir@, self@),
    {
        join_onto(backup_dir, self.0.as_slice())
    }
}

/// A relative path joined onto a directory as `Path::join` does on Unix:
/// a `/` goes between them unless the directory is empty or already ends
/// with one.
pub open spec fn joined_path(dir: Seq<u8>, rel: Seq<u8>) -> Seq<u8> {
    if dir.len() > 0 && dir.last() != 0x2fu8 {
        dir.push(0x2fu8) + rel
    } else {
        dir + rel
    }
}

/// Joins a relative path onto a directory.
fn join_onto(dir: &[u8], rel: &[u8]) -> (r: Vec<u8>)
    ensures
        r@ == joined_path(dir@, rel@),
{
    let mut out = vstd::slice::slice_to_vec(dir);
    if dir.len() > 0 && dir[dir.len() - 1] != 0x2fu8 {
        out.push(0x2fu8);
    }
    crate::bytes::append_bytes(&mut out, rel);
    out
}

/// The bytes `tmp`.
pub open spec fn tmp_name() -> Seq<u8> {
    seq![0x74u8, 0x6du8, 0x70u8]
}

/// The bytes `old`.
pub open spec fn old_name() -> Seq<u8> {
    seq![0x6fu8, 0x6cu8, 0x64u8]
}

/// `tmp/<op, 16 digits>.tmp`
pub open spec fn tmp_journal_path(op: u64) -> Seq<u8> {
    tmp_name() + seq![0x2fu8] + zero_padded_decimal(op as nat, 16) + seq![0x2eu8] + tmp_name()
}

/// `old/<op, 16 digits>.old`
pub open spec fn old_journal_path(op: u64) -> Seq<u8> {
    old_name() + seq![0x2fu8] + zero_padded_decimal(op as nat, 16) + seq![0x2eu8] + old_name()
}

/// Whether a recorded journal path is accepted: a valid non-empty relative
/// path whose first component is `tmp` or `old`.
pub open spec fn journal_path_accepted(s: Seq<u8>) -> bool {
    &&& relative_path_accepted(s, false)
    &&& (split_slash(s)[0] == tmp_name() || split_slash(s)[0] == old_name())
}

/// Relative path to a transaction-private file under the journal directory:
/// `tmp/` holds newly received data, `old/` holds previous versions.
#[derive(Debug, PartialEq, Eq)]
pub struct JournalPath(Vec<u8>);

impl View for JournalPath {
    type V = Seq<u8>;

    closed spec fn view(&self) -> Seq<u8> {
        self.0@
    }
}

impl Clone for JournalPath {
    fn clone(&self) -> (r: Self)
        ensures
            r@ == self@,
    {
        let v = self.0.clone();
        assert(v@ =~= self.0@);
        JournalPath(v)
    }
}

fn push_three(out: &mut Vec<u8>, a: u8, b: u8, c: u8)
    requires
        old(out)@.len() + 3 <= usize::MAX,
    ensures
        final(out)@ == old(out)@ + seq![a, b, c],
{
    out.push(a);
    out.push(b);
    out.push(c);
    assert(out@ =~= old(out)@ + seq![a, b, c]);
}

impl JournalPath {
    /// Deterministic staging path for an operation: `tmp/<op>.tmp` with the
    /// id written as at least 16 decimal digits.
    pub fn tmp(op: OpId) -> (r: JournalPath)
        ensures
            r@ == tmp_journal_path(op.0),
    {
        let mut v: Vec<u8> = Vec::new();
        push_three(&mut v, 0x74u8, 0x6du8, 0x70u8);
        v.push(0x2fu8);
        push_zero_padded_decimal(&mut v, op.0, 16);
        v.push(0x2eu8);
        push_three(&mut v, 0x74u8, 0x6du8, 0x70u8);
        assert(v@ =~= tmp_journal_path(op.0));
        JournalPath(v)
    }

    /// Deterministic old-state path for an operation: `old/<op>.old`.
    pub fn old_path(op: OpId) -> (r: JournalPath)
        ensures
            r@ == old_journal_path(op.0),
    {
        let mut v: Vec<u8> = Vec::new();
        push_three(&mut v, 0x6fu8, 0x6cu8, 0x64u8);
        v.push(0x2fu8);
        push_zero_padded_decimal(&mut v, op.0, 16);
        v.push(0x2eu8);
        push_three(&mut v, 0x6fu8, 0x6cu8, 0x64u8);
        assert(v@ =~= old_journal_path(op.0));
        JournalPath(v)
    }

    /// Parses a path read from the journal. Only paths under `tmp/` or
    /// `old/` are accepted; an invalid relative path is reported as an
    /// invalid backup path, a valid one outside those two directories as an
    /// invalid journal path.
    pub fn parse_recorded(path: &str) -> (res: Result<JournalPath, BackupTransactionError>)
        ensures
            match res {
                Ok(p) => journal_path_accepted(path.spec_bytes()) && p@ == normalized_path(
                    path.spec_bytes(),
                ),
                Err(e) => !journal_path_accepted(path.spec_bytes()) && (if relative_path_accepted(
                    path.spec_bytes(),
                    false,
                ) {
                    e matches BackupTransactionError::InvalidJournalPath(m) && m@ == path@
                } else {
                    e matches BackupTransactionError::InvalidBackupPath(m) && m@ == path@
                }),
            },
    {
        let v = match validate_relative_path(path, false) {
            Ok(v) => v,
            Err(e) => return Err(e),
        };
        let bytes = path.as_bytes();
        let n = bytes.len();
        let mut k: usize = 0;
        while k < n && bytes[k] != 0x2fu8
            invariant
                k <= n,
                n == bytes@.len(),
                forall|j: int| 0 <= j < k ==> #[trigger] bytes@[j] != 0x2fu8,
            decreases n - k,
        {
            k = k + 1;
        }
        proof {
            let first = bytes@.subrange(0, k as int);
            assert forall|j: int| 0 <= j < first.len() implies #[trigger] first[j] != 0x2fu8 by {
                assert(first[j] == bytes@[j]);
            }
            lemma_split_no_slash(first);
            if k < n {
                let rest = bytes@.subrange(k + 1, n as int);
                assert(first + seq![0x2fu8] + rest =~= bytes@);
                lemma_split_concat(first, rest);
            } else {
                assert(first =~= bytes@);
            }
            assert(split_slash(bytes@)[0] == first);
        }
        let is_tmp = k == 3 && bytes[0] == 0x74u8 && bytes[1] == 0x6du8 && bytes[2] == 0x70u8;
        let is_old = k == 3 && bytes[0] == 0x6fu8 && bytes[1] == 0x6cu8 && bytes[2] == 0x64u8;
        proof {
            let first = bytes@.subrange(0, k as int);
            if is_tmp {
                assert(first =~= tmp_name());
            }
            if is_old {
                assert(first =~= old_name());
            }
            if first == tmp_name() || first == old_name() {
                assert(first.len() == 3);
            }
        }
        if is_tmp || is_old {
            Ok(JournalPath(v))
        } else {
            Err(BackupTransactionError::InvalidJournalPath(path.to_owned()))
        }
    }

    /// The path as stored in the journal, relative to the journal directory.
    pub fn as_relative_path(&self) -> (r: &[u8])
        ensures
            r@ == self@,
    {
        self.0.as_slice()
    }

    /// This path joined onto the journal directory: `tmp/0000000000000001.tmp`
    /// onto `/Backups/UDID/.idevice-journal` is
    /// `/Backups/UDID/.idevice-journal/tmp/0000000000000001.tmp`.
    pub fn join_to_journal_dir(&self, journal_dir: &[u8]) -> (r: Vec<u8>)
        ensures
            r@ == joined_path(journal_dir@, self@),
    {
        join_onto(journal_dir, self.0.as_slice())
    }
}


// ---------------------------------------------------------------------------
// Laws of the path grammar
// ---------------------------------------------------------------------------

/// All segments are non-empty and free of `/`.
pub open spec fn parts_slash_free(parts: Seq<Seq<u8>>) -> bool {
    forall|j: int, k: int|
        0 <= j < parts.len() && 0 <= k < parts[j].len() ==> #[trigger] parts[j][k] != 0x2fu8
}

/// No byte of any segment is a backslash or NUL.
pub open spec fn parts_have_no_forbidden_bytes(parts: Seq<Seq<u8>>) -> bool {
    forall|j: int, k: int|
        0 <= j < parts.len() && 0 <= k < parts[j].len() ==> #[trigger] parts[j][k] != 0x5cu8
            && parts[j][k] != 0u8
}

proof fn lemma_split_segments_clean(s: Seq<u8>)
    ensures
        parts_slash_free(split_slash(s)),
        has_no_forbidden_bytes(s) ==> parts_have_no_forbidden_bytes(split_slash(s)),
    decreases s.len(),
{
    if s.len() > 0 {
        let p = s.drop_last();
        lemma_split_segments_clean(p);
        lemma_split_nonempty(p);
        if has_no_forbidden_bytes(s) {
            assert(has_no_forbidden_bytes(p)) by {
                assert forall|k: int| 0 <= k < p.len() implies #[trigger] p[k] != 0x5cu8 && p[k]
                    != 0u8 by {
                    assert(p[k] == s[k]);
                }
            }
            assert(s.last() == s[s.len() - 1]);
        }
        let prev = split_slash(p);
        if s.last() != 0x2fu8 {
            let segs = split_slash(s);
            assert forall|j: int, k: int|
                0 <= j < segs.len() && 0 <= k < segs[j].len() implies #[trigger] segs[j][k]
                != 0x2fu8 by {
                if j == prev.len() - 1 && k == prev.last().len() {
                    assert(segs[j][k] == s.last());
                } else if j == prev.len() - 1 {
                    assert(segs[j][k] == prev[j][k]);
                }
            }
            if has_no_forbidden_bytes(s) {
                assert(s.last() == s[s.len() - 1]);
                assert forall|j: int, k: int|
                    0 <= j < segs.len() && 0 <= k < segs[j].len() implies #[trigger] segs[j][k]
                    != 0x5cu8 && segs[j][k] != 0u8 by {
                    if j == prev.len() - 1 && k == prev.last().len() {
                        assert(segs[j][k] == s.last());
                    } else if j == prev.len() - 1 {
                        assert(segs[j][k] == prev[j][k]);
                    }
                }
            }
        }
    }
}

proof fn lemma_split_join(parts: Seq<Seq<u8>>)
    requires
        parts.len() >= 1,
        parts_slash_free(parts),
    ensures
        split_slash(join_parts(parts)) == parts,
    decreases parts.len(),
{
    if parts.len() == 1 {
        assert forall|k: int| 0 <= k < parts[0].len() implies #[trigger] parts[0][k] != 0x2fu8 by {}
        lemma_split_no_slash(parts[0]);
        assert(seq![parts[0]] =~= parts);
    } else {
        let init = parts.drop_last();
        assert forall|j: int, k: int|
            0 <= j < init.len() && 0 <= k < init[j].len() implies #[trigger] init[j][k] != 0x2fu8 by {
            assert(init[j] == parts[j]);
        }
        lemma_split_join(init);
        let last = parts.last();
        assert forall|k: int| 0 <= k < last.len() implies #[trigger] last[k] != 0x2fu8 by {
            assert(last == parts[parts.len() - 1]);
        }
        lemma_split_no_slash(last);
        lemma_split_concat(join_parts(init), last);
        assert(init + seq![last] =~= parts);
    }
}

proof fn lemma_normal_parts_all_normal(parts: Seq<Seq<u8>>)
    requires
        forall|j: int| 0 <= j < parts.len() ==> is_normal(#[trigger] parts[j]),
    ensures
        normal_parts(parts) == parts,
    decreases parts.len(),
{
    if parts.len() > 0 {
        let init = parts.drop_last();
        assert forall|j: int| 0 <= j < init.len() implies is_normal(#[trigger] init[j]) by {
            assert(init[j] == parts[j]);
        }
        lemma_normal_parts_all_normal(init);
        assert(parts.last() == parts[parts.len() - 1]);
        assert(init.push(parts.last()) =~= parts);
    }
}

/// Every component kept is a normal segment of the input, and the first
/// segment, when normal, is the first component.
proof fn lemma_normal_parts_from_segments(segs: Seq<Seq<u8>>)
    ensures
        forall|i: int|
            0 <= i < normal_parts(segs).len() ==> exists|j: int|
                0 <= j < segs.len() && segs[j] == #[trigger] normal_parts(segs)[i],
        forall|i: int| 0 <= i < normal_parts(segs).len() ==> is_normal(#[trigger] normal_parts(segs)[i]),
        segs.len() > 0 && is_normal(segs[0]) ==> normal_parts(segs).len() > 0 && normal_parts(segs)[0]
            == segs[0],
    decreases segs.len(),
{
    if segs.len() > 0 {
        let init = segs.drop_last();
        lemma_normal_parts_from_segments(init);
        let prev = normal_parts(init);
        let cur = normal_parts(segs);
        assert forall|i: int| 0 <= i < cur.len() implies exists|j: int|
            0 <= j < segs.len() && segs[j] == #[trigger] cur[i] by {
            if i < prev.len() {
                let j = choose|j: int| 0 <= j < init.len() && init[j] == prev[i];
                assert(segs[j] == init[j]);
            } else {
                assert(segs[segs.len() - 1] == cur[i]);
            }
        }
        if segs.len() > 1 && is_normal(segs[0]) {
            assert(init[0] == segs[0]);
        }
        if segs.len() == 1 && is_normal(segs[0]) {
            assert(init.len() == 0);
            assert(segs.last() == segs[0]);
        }
    }
}

proof fn lemma_join_clean(parts: Seq<Seq<u8>>)
    requires
        parts_have_no_forbidden_bytes(parts),
    ensures
        has_no_forbidden_bytes(join_parts(parts)),
    decreases parts.len(),
{
    if parts.len() == 1 {
        assert forall|k: int| 0 <= k < join_parts(parts).len() implies #[trigger] join_parts(
            parts,
        )[k] != 0x5cu8 && join_parts(parts)[k] != 0u8 by {
            assert(join_parts(parts)[k] == parts[0][k]);
        }
    } else if parts.len() > 1 {
        let init = parts.drop_last();
        assert forall|j: int, k: int|
            0 <= j < init.len() && 0 <= k < init[j].len() implies #[trigger] init[j][k] != 0x5cu8
            && init[j][k] != 0u8 by {
            assert(init[j] == parts[j]);
        }
        lemma_join_clean(init);
        let a = join_parts(init);
        let last = parts.last();
        let whole = join_parts(parts);
        assert forall|k: int| 0 <= k < whole.len() implies #[trigger] whole[k] != 0x5cu8 && whole[k]
            != 0u8 by {
            if k < a.len() {
                assert(whole[k] == a[k]);
            } else if k > a.len() {
                assert(whole[k] == last[k - a.len() - 1]);
                assert(last == parts[parts.len() - 1]);
            }
        }
    }
}

/// Normalizing is stable: an accepted path's normal form is itself accepted
/// and normalizes to itself, so a path stored in the journal re-parses to
/// the same path.
pub proof fn law_normalized_path_is_stable(s: Seq<u8>, allow_empty: bool)
    requires
        relative_path_accepted(s, allow_empty),
    ensures
        relative_path_accepted(normalized_path(s), allow_empty),
        normalized_path(normalized_path(s)) == normalized_path(s),
{
    if s.len() == 0 {
        assert(split_slash(s) =~= seq![Seq::<u8>::empty()]);
        lemma_normal_parts_push(Seq::<Seq<u8>>::empty(), Seq::<u8>::empty());
        assert(Seq::<Seq<u8>>::empty().push(Seq::<u8>::empty()) =~= seq![Seq::<u8>::empty()]);
        assert(normalized_path(s) =~= Seq::<u8>::empty());
        assert(normalized_path(s) =~= s);
    } else {
        let segs = split_slash(s);
        let parts = normal_parts(segs);
        let n = join_parts(parts);
        lemma_split_segments_clean(s);
        lemma_normal_parts_from_segments(segs);
        assert(parts_slash_free(parts)) by {
            assert forall|j: int, k: int|
                0 <= j < parts.len() && 0 <= k < parts[j].len() implies #[trigger] parts[j][k]
                != 0x2fu8 by {
                let jj = choose|jj: int| 0 <= jj < segs.len() && segs[jj] == parts[j];
                assert(segs[jj][k] != 0x2fu8);
            }
        }
        assert(parts_have_no_forbidden_bytes(parts)) by {
            assert forall|j: int, k: int|
                0 <= j < parts.len() && 0 <= k < parts[j].len() implies #[trigger] parts[j][k]
                != 0x5cu8 && parts[j][k] != 0u8 by {
                let jj = choose|jj: int| 0 <= jj < segs.len() && segs[jj] == parts[j];
                assert(segs[jj][k] != 0x5cu8 && segs[jj][k] != 0u8);
            }
        }
        lemma_split_join(parts);
        lemma_join_clean(parts);
        lemma_normal_parts_all_normal(parts);
        assert(n.len() > 0) by {
            if n.len() == 0 {
                assert(n =~= Seq::<u8>::empty());
                assert(split_slash(n) =~= seq![Seq::<u8>::empty()]);
                assert(parts[0].len() == 0);
            }
        }
        assert forall|j: int| 0 <= j < parts.len() implies !is_dotdot(#[trigger] parts[j]) by {
            let jj = choose|jj: int| 0 <= jj < segs.len() && segs[jj] == parts[j];
            assert(!is_dotdot(segs[jj]));
        }
    }
}

proof fn lemma_padded_digits(n: nat, width: nat)
    ensures
        zero_padded_decimal(n, width).len() >= width,
        zero_padded_decimal(n, width).len() >= 1,
        forall|k: int|
            0 <= k < zero_padded_decimal(n, width).len() ==> 0x30u8 <= #[trigger] zero_padded_decimal(
                n,
                width,
            )[k] <= 0x39u8,
{
    lemma_decimal_digits_are_digits(n);
    let d = decimal_digits(n);
    if d.len() < width {
        let z = zero_padded_decimal(n, width);
        let pad = Seq::new((width - d.len()) as nat, |_i: int| 0x30u8);
        assert forall|k: int| 0 <= k < z.len() implies 0x30u8 <= #[trigger] z[k] <= 0x39u8 by {
            if k < pad.len() {
                assert(z[k] == pad[k]);
            } else {
                assert(z[k] == d[k - pad.len()]);
            }
        }
    }
}

proof fn lemma_journal_file_path(dir: Seq<u8>, op: u64)
    requires
        dir.len() == 3,
        dir[0] != 0x2eu8,
        forall|k: int| 0 <= k < 3 ==> 0x61u8 <= #[trigger] dir[k] <= 0x7au8,
    ensures
        ({
            let s = dir + seq![0x2fu8] + zero_padded_decimal(op as nat, 16) + seq![0x2eu8] + dir;
            &&& relative_path_accepted(s, false)
            &&& split_slash(s)[0] == dir
            &&& normalized_path(s) == s
        }),
{
    let d = zero_padded_decimal(op as nat, 16) + seq![0x2eu8] + dir;
    let s = dir + seq![0x2fu8] + zero_padded_decimal(op as nat, 16) + seq![0x2eu8] + dir;
    assert(s =~= dir + seq![0x2fu8] + d);
    lemma_padded_digits(op as nat, 16);
    let z = zero_padded_decimal(op as nat, 16);
    assert forall|k: int| 0 <= k < d.len() implies #[trigger] d[k] != 0x2fu8 && d[k] != 0x5cu8 && d[k]
        != 0u8 by {
        if k < z.len() {
            assert(d[k] == z[k]);
        } else if k > z.len() {
            assert(d[k] == dir[k - z.len() - 1]);
        }
    }
    assert forall|k: int| 0 <= k < dir.len() implies #[trigger] dir[k] != 0x2fu8 by {}
    lemma_split_no_slash(dir);
    lemma_split_no_slash(d);
    lemma_split_concat(dir, d);
    let segs = split_slash(s);
    assert(segs =~= seq![dir, d]);
    assert(has_no_forbidden_bytes(s)) by {
        assert forall|k: int| 0 <= k < s.len() implies #[trigger] s[k] != 0x5cu8 && s[k] != 0u8 by {
            if k < 3 {
                assert(s[k] == dir[k]);
            } else if k > 3 {
                assert(s[k] == d[k - 4]);
            }
        }
    }
    assert(!is_dot(dir)) by {
        if is_dot(dir) {
            assert(dir.len() == 1);
        }
    }
    assert(!is_dotdot(dir)) by {
        if is_dotdot(dir) {
            assert(dir.len() == 2);
        }
    }
    assert(!is_dotdot(d)) by {
        if is_dotdot(d) {
            assert(d.len() == 2);
        }
    }
    assert(!is_dot(d)) by {
        if is_dot(d) {
            assert(d.len() == 1);
        }
    }
    assert(dir != journal_dir_name()) by {
        if dir == journal_dir_name() {
            assert(dir.len() == 16);
        }
    }
    assert(segments_ok(segs));
    lemma_normal_parts_push(seq![dir], d);
    lemma_normal_parts_push(Seq::<Seq<u8>>::empty(), dir);
    assert(Seq::<Seq<u8>>::empty().push(dir) =~= seq![dir]);
    assert(seq![dir].push(d) =~= segs);
    assert(normal_parts(segs) =~= seq![dir, d]);
    lemma_join_push(seq![dir], d);
    lemma_join_push(Seq::<Seq<u8>>::empty(), dir);
    assert(join_parts(seq![dir]) == dir);
}

/// The staging path of any operation is a recorded journal path that
/// `JournalPath::parse_recorded` accepts and keeps unchanged.
pub proof fn law_tmp_path_is_recorded_journal_path(op: u64)
    ensures
        journal_path_accepted(tmp_journal_path(op)),
        normalized_path(tmp_journal_path(op)) == tmp_journal_path(op),
{
    lemma_journal_file_path(tmp_name(), op);
}

/// The old-state path of any operation is a recorded journal path that
/// `JournalPath::parse_recorded` accepts and keeps unchanged.
pub proof fn law_old_path_is_recorded_journal_path(op: u64)
    ensures
        journal_path_accepted(old_journal_path(op)),
        normalized_path(old_journal_path(op)) == old_journal_path(op),
{
    lemma_journal_file_path(old_name(), op);
}

/// Every path accepted as an item is accepted as a path, with the same
/// normal form; the two differ only on the backup root.
pub proof fn law_item_paths_are_paths(s: Seq<u8>)
    ensures
        relative_path_accepted(s, false) ==> relative_path_accepted(s, true),
        relative_path_accepted(s, true) && !relative_path_accepted(s, false) ==> s.len() == 0,
{
}

} // verus!
