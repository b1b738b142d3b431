//! Line framing of the backup transaction journal: a header line, then one
//! serialized record per line. Only complete lines count, so a record cut
//! short by a crash is passed over, and the text up to the last line break
//! is what a reopened journal keeps.
use vstd::prelude::*;
use vstd::string::{StrSliceExecFns, StringExecFns};
use crate::backup::requests::string_views;
use crate::text::{char_from, find_char_from, lemma_char_from_bounds, str_chars, str_equal, trim, trim_bounds};

verus! {

/// The journal's first line, without its line break.
pub open spec fn journal_magic() -> Seq<char> {
    "# idevice mobilebackup2 journal v1"@
}

/// The header line a new journal starts with.
pub fn journal_header() -> (r: String)
    ensures
        r@ == journal_magic().push('\n'),
{
    let r = String::from_str("# idevice mobilebackup2 journal v1").concat("\n");
    proof {
        reveal_strlit("\n");
    }
    assert(r@ =~= journal_magic().push('\n'));
    r
}

/// The line that records one serialized record.
pub fn journal_line(record: &str) -> (r: String)
    ensures
        r@ == record@.push('\n'),
{
    let r = String::from_str(record).concat("\n");
    proof {
        reveal_strlit("\n");
    }
    assert(r@ =~= record@.push('\n'));
    r
}

/// The complete lines of journal text from `start`, each without its line
/// break; text after the last line break is a partial tail, left out.
pub open spec fn complete_lines(s: Seq<char>, start: nat) -> Seq<Seq<char>>
    decreases s.len() - start,
{
    if start >= s.len() {
        Seq::empty()
    } else {
        let e = char_from(s, '\n', start);
        proof {
            lemma_char_from_bounds(s, '\n', start);
        }
        if e >= s.len() {
            Seq::empty()
        } else {
            seq![s.subrange(start as int, e as int)] + complete_lines(s, e + 1)
        }
    }
}

/// Where the complete lines from `start` end: just after the last line
/// break, or `start` when there is none.
pub open spec fn complete_end(s: Seq<char>, start: nat) -> nat
    decreases s.len() - start,
{
    if start >= s.len() {
        start
    } else {
        let e = char_from(s, '\n', start);
        proof {
            lemma_char_from_bounds(s, '\n', start);
        }
        if e >= s.len() {
            start
        } else {
            complete_end(s, e + 1)
        }
    }
}

/// A line without its trailing carriage returns.
pub open spec fn without_cr(l: Seq<char>) -> Seq<char>
    decreases l.len(),
{
    if l.len() > 0 && l.last() == '\r' {
        without_cr(l.drop_last())
    } else {
        l
    }
}

/// Whether the line at index `i` (carriage returns removed) holds no
/// record: the magic as first line, or a blank line.
pub open spec fn skipped_line(i: int, t: Seq<char>) -> bool {
    (i == 0 && t == journal_magic()) || trim(t).len() == 0
}

/// The records among lines: each line that is not passed over, without
/// its carriage returns, in order.
pub open spec fn line_records(lines: Seq<Seq<char>>) -> Seq<Seq<char>>
    decreases lines.len(),
{
    if lines.len() == 0 {
        Seq::empty()
    } else {
        let t = without_cr(lines.last());
        line_records(lines.drop_last()) + if skipped_line(lines.len() - 1, t) {
            Seq::empty()
        } else {
            seq![t]
        }
    }
}

/// The record lines of journal text.
pub open spec fn journal_records(s: Seq<char>) -> Seq<Seq<char>> {
    line_records(complete_lines(s, 0))
}

/// Journal text cut into its record lines and its complete part.
pub struct JournalText {
    /// The record lines, in order, without line breaks or trailing
    /// carriage returns.
    pub records: Vec<String>,
    /// The text up to its last line break: what a reopened journal keeps.
    pub complete: String,
}

/// Cuts journal text into its record lines and its complete part.
pub fn read_journal_text(text: &str) -> (r: JournalText)
    ensures
        string_views(r.records@) == journal_records(text@),
        r.complete@ == text@.take(complete_end(text@, 0) as int),
{
    let chars = str_chars(text);
    let n = chars.len();
    let mut records: Vec<String> = Vec::new();
    let mut start: usize = 0;
    let mut idx: usize = 0;
    let ghost mut done: Seq<Seq<char>> = Seq::empty();
    assert(done + complete_lines(text@, 0) =~= complete_lines(text@, 0));
    loop
        invariant
            chars@ == text@,
            n == chars@.len(),
            idx <= start <= n,
            done.len() == idx,
            done + complete_lines(text@, start as nat) == complete_lines(text@, 0),
            complete_end(text@, start as nat) == complete_end(text@, 0),
            string_views(records@) == line_records(done),
        ensures
            start <= n,
            done == complete_lines(text@, 0),
            start == complete_end(text@, 0),
            string_views(records@) == line_records(done),
        decreases n - start,
    {
        if start >= n {
            assert(done + Seq::<Seq<char>>::empty() =~= done);
            break;
        }
        let e = find_char_from(chars.as_slice(), '\n', start);
        if e >= n {
            assert(done + Seq::<Seq<char>>::empty() =~= done);
            break;
        }
        let ghost l = text@.subrange(start as int, e as int);
        let mut end = e;
        while end > start && chars[end - 1] == '\r'
            invariant
                chars@ == text@,
                n == chars@.len(),
                start <= end <= e < n,
                l == text@.subrange(start as int, e as int),
                without_cr(text@.subrange(start as int, end as int)) == without_cr(l),
            decreases end - start,
        {
            assert(text@.subrange(start as int, end as int).drop_last() =~= text@.subrange(
                start as int,
                end - 1,
            ));
            end = end - 1;
        }
        let t = text.substring_char(start, end);
        assert(without_cr(t@) == t@);
        let (a, b) = trim_bounds(chars.as_slice(), start, end);
        let skip = (idx == 0 && str_equal(t, "# idevice mobilebackup2 journal v1")) || a == b;
        let ghost before = records@;
        if !skip {
            records.push(String::from_str(t));
        }
        proof {
            let next = done.push(l);
            assert(next.drop_last() =~= done);
            assert(next.last() == l);
            assert(skip == skipped_line(idx as int, t@));
            assert(string_views(records@) =~= line_records(next));
            assert(next + complete_lines(text@, (e + 1) as nat) =~= done + complete_lines(
                text@,
                start as nat,
            ));
            done = next;
        }
        idx = idx + 1;
        start = e + 1;
    }
    let complete = String::from_str(text.substring_char(0, start));
    assert(complete@ =~= text@.take(complete_end(text@, 0) as int));
    JournalText { records, complete }
}

// ---------------------------------------------------------------------------
// What a written journal reads back as
// ---------------------------------------------------------------------------

/// Whether a record can stand on a journal line and be read back as it is:
/// no line break, no trailing carriage return, not blank (a serialized
/// JSON record is all of these).
pub open spec fn writable_record(r: Seq<char>) -> bool {
    &&& !r.contains('\n')
    &&& !(r.len() > 0 && r.last() == '\r')
    &&& trim(r).len() > 0
}

/// The lines of records, each with its line break.
pub open spec fn record_lines(rs: Seq<Seq<char>>) -> Seq<char>
    decreases rs.len(),
{
    if rs.len() == 0 {
        Seq::empty()
    } else {
        rs[0].push('\n') + record_lines(rs.skip(1))
    }
}

/// A journal as written: the header line, then one line per record.
pub open spec fn journal_text(rs: Seq<Seq<char>>) -> Seq<char> {
    journal_magic().push('\n') + record_lines(rs)
}

/// The first `c` at or after `i` is at `j` when `s[i..j]` holds none and
/// `s[j]` is `c` (or `j` is the end).
proof fn lemma_char_from_at(s: Seq<char>, c: char, i: nat, j: nat)
    requires
        i <= j <= s.len(),
        forall|k: int| i <= k < j ==> s[k] != c,
        j < s.len() ==> s[j as int] == c,
    ensures
        char_from(s, c, i) == j,
    decreases j - i,
{
    if i < j {
        lemma_char_from_at(s, c, i + 1, j);
    }
}

/// Record lines from `start`, then a tail without line break: the complete
/// lines are the records, ending after the last record line.
proof fn lemma_complete_record_lines(s: Seq<char>, start: nat, rs: Seq<Seq<char>>, tail: Seq<char>)
    requires
        start <= s.len(),
        s.subrange(start as int, s.len() as int) == record_lines(rs) + tail,
        forall|i: int| 0 <= i < rs.len() ==> !(#[trigger] rs[i]).contains('\n'),
        !tail.contains('\n'),
    ensures
        complete_lines(s, start) == rs,
        complete_end(s, start) == start + record_lines(rs).len(),
    decreases rs.len(),
{
    if rs.len() == 0 {
        assert(record_lines(rs) + tail =~= tail);
        if start < s.len() {
            assert forall|k: int| start <= k < s.len() implies s[k] != '\n' by {
                assert(s[k] == tail[k - start]);
            }
            lemma_char_from_at(s, '\n', start, s.len());
        }
    } else {
        let r = rs[0];
        let e: nat = start + r.len();
        assert(!r.contains('\n'));
        let head = r.push('\n');
        let sub = s.subrange(start as int, s.len() as int);
        assert(record_lines(rs) == head + record_lines(rs.skip(1)));
        assert(sub.len() == head.len() + record_lines(rs.skip(1)).len() + tail.len());
        assert forall|k: int| start <= k < e implies s[k] != '\n' by {
            assert(s[k] == sub[k - start]);
            assert(sub[k - start] == head[k - start]);
            assert(s[k] == r[k - start]);
        }
        assert(s[e as int] == sub[r.len() as int]);
        assert(sub[r.len() as int] == head[r.len() as int]);
        lemma_char_from_at(s, '\n', start, e);
        assert(s.subrange(start as int, e as int) =~= r);
        let rest = rs.skip(1);
        assert forall|i: int| 0 <= i < rest.len() implies !(#[trigger] rest[i]).contains('\n') by {
            assert(rest[i] == rs[i + 1]);
        }
        assert(sub =~= head + (record_lines(rest) + tail));
        assert(sub.skip(head.len() as int) =~= record_lines(rest) + tail);
        assert(s.subrange(e + 1 as int, s.len() as int) =~= sub.skip(head.len() as int));
        lemma_complete_record_lines(s, (e + 1) as nat, rest, tail);
        assert(seq![r] + rest =~= rs);
    }
}

/// The records of lines made of the magic and then records that are
/// never passed over.
proof fn lemma_line_records_of_written(rs: Seq<Seq<char>>)
    requires
        forall|i: int| 0 <= i < rs.len() ==> writable_record(#[trigger] rs[i]),
    ensures
        line_records(seq![journal_magic()] + rs) == rs,
    decreases rs.len(),
{
    let lines = seq![journal_magic()] + rs;
    if rs.len() == 0 {
        assert(lines.drop_last() =~= Seq::<Seq<char>>::empty());
        reveal_strlit("# idevice mobilebackup2 journal v1");
        assert(journal_magic().last() != '\r');
        assert(lines.last() == journal_magic());
        assert(without_cr(journal_magic()) == journal_magic());
        assert(skipped_line(0, journal_magic()));
        assert(line_records(lines.drop_last()) =~= Seq::<Seq<char>>::empty());
        assert(line_records(lines) =~= rs);
    } else {
        let x = rs.last();
        assert(writable_record(rs[rs.len() - 1]));
        assert(lines.drop_last() =~= seq![journal_magic()] + rs.drop_last());
        assert forall|i: int| 0 <= i < rs.drop_last().len() implies writable_record(
            #[trigger] rs.drop_last()[i],
        ) by {
            assert(rs.drop_last()[i] == rs[i]);
        }
        lemma_line_records_of_written(rs.drop_last());
        assert(without_cr(x) == x);
        assert(line_records(lines) =~= rs);
    }
}

/// A journal written as its header and one line per record reads back as
/// exactly those records, whatever partial line follows them; and its
/// complete part, what a reopened journal keeps, is the written journal.
pub proof fn law_journal_reads_back_records(rs: Seq<Seq<char>>, tail: Seq<char>)
    requires
        forall|i: int| 0 <= i < rs.len() ==> writable_record(#[trigger] rs[i]),
        !tail.contains('\n'),
    ensures
        journal_records(journal_text(rs) + tail) == rs,
        complete_end(journal_text(rs) + tail, 0) == journal_text(rs).len(),
{
    let s = journal_text(rs) + tail;
    let magic = journal_magic();
    let all = seq![magic] + rs;
    reveal_strlit("# idevice mobilebackup2 journal v1");
    assert(!magic.contains('\n')) by {
        assert forall|k: int| 0 <= k < magic.len() implies magic[k] != '\n' by {
            reveal_strlit("# idevice mobilebackup2 journal v1");
        }
    }
    assert forall|i: int| 0 <= i < all.len() implies !(#[trigger] all[i]).contains('\n') by {
        if i > 0 {
            assert(all[i] == rs[i - 1]);
            assert(writable_record(rs[i - 1]));
        }
    }
    assert(record_lines(all) == magic.push('\n') + record_lines(all.skip(1)));
    assert(all.skip(1) =~= rs);
    assert(s.subrange(0, s.len() as int) =~= record_lines(all) + tail);
    lemma_complete_record_lines(s, 0, all, tail);
    lemma_line_records_of_written(rs);
}

/// Appending one record's line to a written journal gives the journal
/// written with that record last.
pub proof fn law_append_adds_a_record(rs: Seq<Seq<char>>, r: Seq<char>)
    ensures
        journal_text(rs) + r.push('\n') == journal_text(rs.push(r)),
    decreases rs.len(),
{
    lemma_record_lines_push(rs, r);
    assert(journal_text(rs) + r.push('\n') =~= journal_text(rs.push(r)));
}

/// The lines of records with one more at the end.
proof fn lemma_record_lines_push(rs: Seq<Seq<char>>, r: Seq<char>)
    ensures
        record_lines(rs.push(r)) == record_lines(rs) + r.push('\n'),
    decreases rs.len(),
{
    if rs.len() == 0 {
        assert(rs.push(r).skip(1) =~= Seq::<Seq<char>>::empty());
        assert(rs.push(r)[0] == r);
        assert(record_lines(rs.push(r).skip(1)) == Seq::<char>::empty());
        assert(record_lines(rs.push(r)) =~= record_lines(rs) + r.push('\n'));
    } else {
        lemma_record_lines_push(rs.skip(1), r);
        assert(rs.push(r).skip(1) =~= rs.skip(1).push(r));
        assert(record_lines(rs.push(r)) =~= record_lines(rs) + r.push('\n'));
    }
}

} // verus!
