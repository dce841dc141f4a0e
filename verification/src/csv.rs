use crate::date::{valid_date, Date};
use crate::record::Record;
use crate::render::{
    date_chars, dec_int, lemma_date_chars_contents, lemma_date_chars_injective,
    lemma_dec_int_contents, lemma_dec_int_injective, push_date, push_i32_dec,
};
use vstd::prelude::*;
use vstd::string::StringExecFns;

verus! {

/// The fixed header line, newline-terminated.
pub open spec fn csv_header() -> Seq<char> {
    "symbol,date,open,close,low,height,count,volume,volume_weight\n"@
}

/// One row's line: the nine fields in header order, comma-delimited, without
/// quoting, newline-terminated.
pub open spec fn csv_line(r: Record) -> Seq<char> {
    r.symbol@ + ","@ + date_chars(r.date) + ","@ + r.open@ + ","@ + r.close@ + ","@ + r.low@ + ","@
        + r.height@ + ","@ + dec_int(r.count as int) + ","@ + r.volume@ + ","@ + r.volume_weight@
        + "\n"@
}

/// The lines of the rows, in order.
pub open spec fn csv_body(rs: Seq<Record>) -> Seq<char>
    decreases rs.len(),
{
    if rs.len() == 0 {
        Seq::empty()
    } else {
        csv_line(rs[0]) + csv_body(rs.drop_first())
    }
}

/// The whole output: the header line, then one line per row in order.
pub open spec fn csv_text(rs: Seq<Record>) -> Seq<char> {
    csv_header() + csv_body(rs)
}

/// The lines of a concatenation are the concatenated lines.
pub proof fn lemma_csv_body_cat(a: Seq<Record>, b: Seq<Record>)
    ensures
        csv_body(a + b) == csv_body(a) + csv_body(b),
    decreases a.len(),
{
    if a.len() == 0 {
        assert(a + b =~= b);
        assert(csv_body(a) + csv_body(b) =~= csv_body(b));
    } else {
        assert((a + b).drop_first() =~= a.drop_first() + b);
        lemma_csv_body_cat(a.drop_first(), b);
        assert((a + b)[0] == a[0]);
        assert(csv_body(a + b) == csv_line(a[0]) + (csv_body(a.drop_first()) + csv_body(b)));
        assert(csv_line(a[0]) + (csv_body(a.drop_first()) + csv_body(b)) =~= (csv_line(a[0])
            + csv_body(a.drop_first())) + csv_body(b));
    }
}

pub proof fn lemma_csv_body_push(rs: Seq<Record>, r: Record)
    ensures
        csv_body(rs.push(r)) == csv_body(rs) + csv_line(r),
{
    assert(rs.push(r) =~= rs + seq![r]);
    lemma_csv_body_cat(rs, seq![r]);
    assert(seq![r].drop_first() =~= Seq::<Record>::empty());
    assert(csv_body(seq![r]) == csv_line(r) + csv_body(Seq::<Record>::empty()));
    assert(csv_body(rs) + (csv_line(r) + Seq::<char>::empty()) =~= csv_body(rs) + csv_line(r));
}

#[verifier::rlimit(60)]
fn push_line(out: &mut String, r: &Record)
    requires
        valid_date(r.date),
    ensures
        final(out)@ == old(out)@ + csv_line(*r),
{
    out.append(r.symbol.as_str());
    out.append(",");
    push_date(out, r.date);
    out.append(",");
    out.append(r.open.as_str());
    out.append(",");
    out.append(r.close.as_str());
    out.append(",");
    out.append(r.low.as_str());
    out.append(",");
    out.append(r.height.as_str());
    out.append(",");
    push_i32_dec(out, r.count);
    out.append(",");
    out.append(r.volume.as_str());
    out.append(",");
    out.append(r.volume_weight.as_str());
    out.append("\n");
    proof {
        assert(out@ =~= old(out)@ + csv_line(*r));
    }
}

/// Serialize the rows: exactly the header line, then one line per row in
/// accumulator order.
pub fn write_csv(records: &Vec<Record>) -> (out: String)
    requires
        forall|i: int| 0 <= i < records@.len() ==> valid_date(#[trigger] records@[i].date),
    ensures
        out@ == csv_text(records@),
{
    let mut out = String::new();
    out.append("symbol,date,open,close,low,height,count,volume,volume_weight\n");
    let n: usize = records.len();
    let mut i: usize = 0;
    while i < n
        invariant
            n == records@.len(),
            i <= n,
            forall|j: int| 0 <= j < records@.len() ==> valid_date(#[trigger] records@[j].date),
            out@ == csv_header() + csv_body(records@.take(i as int)),
        decreases n - i,
    {
        let ghost done: int = i as int;
        push_line(&mut out, &records[i]);
        i += 1;
        proof {
            assert(records@.take(done + 1) =~= records@.take(done).push(records@[done]));
            lemma_csv_body_push(records@.take(done), records@[done]);
            assert(out@ =~= csv_header() + csv_body(records@.take(done + 1)));
        }
    }
    proof {
        assert(records@.take(n as int) =~= records@);
    }
    out
}

pub open spec fn no_char(s: Seq<char>, c: char) -> bool {
    forall|i: int| 0 <= i < s.len() ==> #[trigger] s[i] != c
}

/// A text field the CSV format can carry without quoting: free of the
/// delimiters.
pub open spec fn field_safe(s: Seq<char>) -> bool {
    no_char(s, ',') && no_char(s, '\n')
}

/// A row whose line is unambiguous: every text field is delimiter-free and
/// the date is renderable.
pub open spec fn csv_safe_record(r: Record) -> bool {
    &&& valid_date(r.date)
    &&& field_safe(r.symbol@)
    &&& field_safe(r.open@)
    &&& field_safe(r.close@)
    &&& field_safe(r.low@)
    &&& field_safe(r.height@)
    &&& field_safe(r.volume@)
    &&& field_safe(r.volume_weight@)
}

pub open spec fn csv_safe_records(rs: Seq<Record>) -> bool {
    forall|i: int| 0 <= i < rs.len() ==> csv_safe_record(#[trigger] rs[i])
}

/// The nine field values a row writes, as character sequences.
pub open spec fn same_fields(a: Record, b: Record) -> bool {
    &&& a.symbol@ == b.symbol@
    &&& a.date == b.date
    &&& a.open@ == b.open@
    &&& a.close@ == b.close@
    &&& a.low@ == b.low@
    &&& a.height@ == b.height@
    &&& a.count == b.count
    &&& a.volume@ == b.volume@
    &&& a.volume_weight@ == b.volume_weight@
}

/// Splitting at a delimiter is unambiguous when neither left part holds it.
proof fn lemma_sep_split(x1: Seq<char>, y1: Seq<char>, x2: Seq<char>, y2: Seq<char>, c: char)
    requires
        no_char(x1, c),
        no_char(x2, c),
        x1 + seq![c] + y1 == x2 + seq![c] + y2,
    ensures
        x1 == x2,
        y1 == y2,
{
    let l = x1 + seq![c] + y1;
    let r = x2 + seq![c] + y2;
    if x1.len() < x2.len() {
        assert(l[x1.len() as int] == c);
        assert(r[x1.len() as int] == x2[x1.len() as int]);
        assert(false);
    } else if x2.len() < x1.len() {
        assert(r[x2.len() as int] == c);
        assert(l[x2.len() as int] == x1[x2.len() as int]);
        assert(false);
    } else {
        assert forall|i: int| 0 <= i < x1.len() implies x1[i] == x2[i] by {
            assert(l[i] == x1[i]);
            assert(r[i] == x2[i]);
        }
        assert(x1 =~= x2);
        assert(l.len() == x1.len() + 1 + y1.len());
        assert(r.len() == x2.len() + 1 + y2.len());
        assert(y1.len() == y2.len());
        assert forall|i: int| 0 <= i < y1.len() implies y1[i] == y2[i] by {
            assert(l[x1.len() + 1 + i] == y1[i]);
            assert(r[x2.len() + 1 + i] == y2[i]);
        }
        assert(y1 =~= y2);
    }
}

/// Order law: the output decomposes around any row `i` as the header, the
/// lines of rows `0..i`, row `i`'s line, then the lines of rows `i+1..` —
/// so line order is exactly accumulator order, with no implicit sorting.
pub proof fn lemma_output_preserves_order(rs: Seq<Record>, i: int)
    requires
        0 <= i < rs.len(),
    ensures
        csv_text(rs) == csv_header() + (csv_body(rs.take(i)) + csv_line(rs[i]) + csv_body(
            rs.skip(i + 1),
        )),
{
    assert(rs =~= rs.take(i) + (seq![rs[i]] + rs.skip(i + 1)));
    lemma_csv_body_cat(rs.take(i), seq![rs[i]] + rs.skip(i + 1));
    lemma_csv_body_cat(seq![rs[i]], rs.skip(i + 1));
    assert(seq![rs[i]].drop_first() =~= Seq::<Record>::empty());
    assert(csv_body(seq![rs[i]]) == csv_line(rs[i]) + csv_body(Seq::<Record>::empty()));
    assert(csv_body(rs) =~= csv_body(rs.take(i)) + csv_line(rs[i]) + csv_body(rs.skip(i + 1)));
    assert(csv_text(rs) =~= csv_header() + (csv_body(rs.take(i)) + csv_line(rs[i]) + csv_body(
        rs.skip(i + 1),
    )));
}

proof fn lemma_date_chars_no_sep(d: Date)
    ensures
        no_char(date_chars(d), ','),
        no_char(date_chars(d), '\n'),
{
    lemma_date_chars_contents(d);
}

proof fn lemma_dec_int_no_sep(n: int)
    ensures
        no_char(dec_int(n), ','),
        no_char(dec_int(n), '\n'),
{
    lemma_dec_int_contents(n);
}

spec fn after_volume(r: Record) -> Seq<char> {
    r.volume_weight@ + "\n"@
}

spec fn after_count(r: Record) -> Seq<char> {
    r.volume@ + seq![','] + after_volume(r)
}

spec fn after_height(r: Record) -> Seq<char> {
    dec_int(r.count as int) + seq![','] + after_count(r)
}

spec fn after_low(r: Record) -> Seq<char> {
    r.height@ + seq![','] + after_height(r)
}

spec fn after_close(r: Record) -> Seq<char> {
    r.low@ + seq![','] + after_low(r)
}

spec fn after_open(r: Record) -> Seq<char> {
    r.close@ + seq![','] + after_close(r)
}

spec fn after_date(r: Record) -> Seq<char> {
    r.open@ + seq![','] + after_open(r)
}

spec fn after_symbol(r: Record) -> Seq<char> {
    date_chars(r.date) + seq![','] + after_date(r)
}

/// The line, re-associated so that each field heads its own tail.
#[verifier::rlimit(60)]
proof fn lemma_line_assoc(r: Record)
    ensures
        csv_line(r) == r.symbol@ + seq![','] + after_symbol(r),
{
    reveal_strlit(",");
    assert(","@ =~= seq![',']);
    assert(csv_line(r) =~= r.symbol@ + seq![','] + after_symbol(r));
}

/// Rows that write the same line carry the same field values.
proof fn lemma_csv_line_injective(r1: Record, r2: Record)
    requires
        csv_safe_record(r1),
        csv_safe_record(r2),
        csv_line(r1) == csv_line(r2),
    ensures
        same_fields(r1, r2),
{
    reveal_strlit("\n");
    lemma_date_chars_no_sep(r1.date);
    lemma_date_chars_no_sep(r2.date);
    lemma_dec_int_no_sep(r1.count as int);
    lemma_dec_int_no_sep(r2.count as int);
    lemma_line_assoc(r1);
    lemma_line_assoc(r2);
    lemma_sep_split(r1.symbol@, after_symbol(r1), r2.symbol@, after_symbol(r2), ',');
    lemma_sep_split(date_chars(r1.date), after_date(r1), date_chars(r2.date), after_date(r2), ',');
    lemma_date_chars_injective(r1.date, r2.date);
    lemma_sep_split(r1.open@, after_open(r1), r2.open@, after_open(r2), ',');
    lemma_sep_split(r1.close@, after_close(r1), r2.close@, after_close(r2), ',');
    lemma_sep_split(r1.low@, after_low(r1), r2.low@, after_low(r2), ',');
    lemma_sep_split(r1.height@, after_height(r1), r2.height@, after_height(r2), ',');
    lemma_sep_split(
        dec_int(r1.count as int),
        after_count(r1),
        dec_int(r2.count as int),
        after_count(r2),
        ',',
    );
    lemma_dec_int_injective(r1.count as int, r2.count as int);
    lemma_sep_split(r1.volume@, after_volume(r1), r2.volume@, after_volume(r2), ',');
    assert(after_volume(r1) =~= r1.volume_weight@ + seq!['\n'] + Seq::<char>::empty());
    assert(after_volume(r2) =~= r2.volume_weight@ + seq!['\n'] + Seq::<char>::empty());
    lemma_sep_split(
        r1.volume_weight@,
        Seq::<char>::empty(),
        r2.volume_weight@,
        Seq::<char>::empty(),
        '\n',
    );
}

/// A newline-terminated line with no interior newline.
spec fn line_shaped(s: Seq<char>) -> bool {
    &&& s.len() >= 1
    &&& s.last() == '\n'
    &&& forall|i: int| 0 <= i < s.len() - 1 ==> #[trigger] s[i] != '\n'
}

proof fn lemma_line_shaped_cons(head: Seq<char>, tail: Seq<char>)
    requires
        no_char(head, '\n'),
        line_shaped(tail),
    ensures
        line_shaped(head + seq![','] + tail),
{
    let s = head + seq![','] + tail;
    assert(s.len() == head.len() + 1 + tail.len());
    assert(s.last() == tail.last());
    assert forall|i: int| 0 <= i < s.len() - 1 implies #[trigger] s[i] != '\n' by {
        if i < head.len() {
            assert(s[i] == head[i]);
        } else if i == head.len() {
            assert(s[i] == ',');
        } else {
            assert(s[i] == tail[i - head.len() - 1]);
        }
    }
}

proof fn lemma_csv_line_shaped(r: Record)
    requires
        csv_safe_record(r),
    ensures
        line_shaped(csv_line(r)),
{
    reveal_strlit("\n");
    lemma_date_chars_no_sep(r.date);
    lemma_dec_int_no_sep(r.count as int);
    assert(line_shaped(after_volume(r))) by {
        assert(after_volume(r).last() == '\n');
        assert forall|i: int| 0 <= i < after_volume(r).len() - 1 implies #[trigger] after_volume(
            r,
        )[i] != '\n' by {
            assert(after_volume(r)[i] == r.volume_weight@[i]);
        }
    }
    lemma_line_shaped_cons(r.volume@, after_volume(r));
    lemma_line_shaped_cons(dec_int(r.count as int), after_count(r));
    lemma_line_shaped_cons(r.height@, after_height(r));
    lemma_line_shaped_cons(r.low@, after_low(r));
    lemma_line_shaped_cons(r.close@, after_close(r));
    lemma_line_shaped_cons(r.open@, after_open(r));
    lemma_line_shaped_cons(date_chars(r.date), after_date(r));
    lemma_line_shaped_cons(r.symbol@, after_symbol(r));
    lemma_line_assoc(r);
}

/// Two line-shaped prefixes of one text are the same line.
proof fn lemma_terminated_prefix(u1: Seq<char>, v1: Seq<char>, u2: Seq<char>, v2: Seq<char>)
    requires
        line_shaped(u1),
        line_shaped(u2),
        u1 + v1 == u2 + v2,
    ensures
        u1 == u2,
        v1 == v2,
{
    let l = u1 + v1;
    let r = u2 + v2;
    if u1.len() < u2.len() {
        assert(l[u1.len() - 1] == u1.last());
        assert(r[u1.len() - 1] == u2[u1.len() - 1]);
        assert(false);
    } else if u2.len() < u1.len() {
        assert(r[u2.len() - 1] == u2.last());
        assert(l[u2.len() - 1] == u1[u2.len() - 1]);
        assert(false);
    } else {
        assert forall|i: int| 0 <= i < u1.len() implies u1[i] == u2[i] by {
            assert(l[i] == u1[i]);
            assert(r[i] == u2[i]);
        }
        assert(u1 =~= u2);
        assert(l.len() == u1.len() + v1.len());
        assert(r.len() == u2.len() + v2.len());
        assert forall|i: int| 0 <= i < v1.len() implies v1[i] == v2[i] by {
            assert(l[u1.len() + i] == v1[i]);
            assert(r[u2.len() + i] == v2[i]);
        }
        assert(v1 =~= v2);
    }
}

proof fn lemma_csv_body_injective(a: Seq<Record>, b: Seq<Record>)
    requires
        csv_safe_records(a),
        csv_safe_records(b),
        csv_body(a) == csv_body(b),
    ensures
        a.len() == b.len(),
        forall|i: int| 0 <= i < a.len() ==> same_fields(#[trigger] a[i], b[i]),
    decreases a.len(),
{
    if a.len() == 0 && b.len() > 0 {
        lemma_csv_line_shaped(b[0]);
        assert(csv_body(b).len() >= csv_line(b[0]).len());
        assert(false);
    } else if b.len() == 0 && a.len() > 0 {
        lemma_csv_line_shaped(a[0]);
        assert(csv_body(a).len() >= csv_line(a[0]).len());
        assert(false);
    } else if a.len() > 0 && b.len() > 0 {
        lemma_csv_line_shaped(a[0]);
        lemma_csv_line_shaped(b[0]);
        lemma_terminated_prefix(
            csv_line(a[0]),
            csv_body(a.drop_first()),
            csv_line(b[0]),
            csv_body(b.drop_first()),
        );
        lemma_csv_line_injective(a[0], b[0]);
        assert(csv_safe_records(a.drop_first())) by {
            assert(forall|i: int|
                0 <= i < a.drop_first().len() ==> #[trigger] a.drop_first()[i] == a[i + 1]);
        }
        assert(csv_safe_records(b.drop_first())) by {
            assert(forall|i: int|
                0 <= i < b.drop_first().len() ==> #[trigger] b.drop_first()[i] == b[i + 1]);
        }
        lemma_csv_body_injective(a.drop_first(), b.drop_first());
        assert forall|i: int| 0 <= i < a.len() implies same_fields(#[trigger] a[i], b[i]) by {
            if i > 0 {
                assert(a.drop_first()[i - 1] == a[i]);
                assert(b.drop_first()[i - 1] == b[i]);
            }
        }
    }
}

/// Round-trip law: the field values of every row are recoverable from the
/// output.  Two row sequences whose text fields are free of the delimiters
/// produce the same CSV text only if they have the same length and, row by
/// row, the same nine field values.
pub proof fn lemma_csv_round_trip(a: Seq<Record>, b: Seq<Record>)
    requires
        csv_safe_records(a),
        csv_safe_records(b),
        csv_text(a) == csv_text(b),
    ensures
        a.len() == b.len(),
        forall|i: int| 0 <= i < a.len() ==> same_fields(#[trigger] a[i], b[i]),
{
    let h = csv_header().len() as int;
    assert(csv_body(a) =~= csv_text(a).skip(h));
    assert(csv_body(b) =~= csv_text(b).skip(h));
    lemma_csv_body_injective(a, b);
}

} // verus!
