//! The text side of the result history: CSV fields and the window of
//! most recent records.
//!
//! Records themselves carry floating-point measurements and are read and
//! written by the program; the rules for quoting and trimming are here.

use vstd::prelude::*;

use crate::text::{chars_of, flat_map_chars, lemma_flat_map_first, string_of};

verus! {

// ── CSV fields ───────────────────────────────────────────────────────────────

/// The characters that force a CSV field into quotes.
pub open spec fn csv_special(c: char) -> bool {
    c == ',' || c == '"' || c == '\n'
}

/// Whether a field holds a delimiter, a quote or a line break.
pub open spec fn needs_quoting(s: Seq<char>) -> bool {
    exists|i: int| 0 <= i < s.len() && csv_special(#[trigger] s[i])
}

/// A quote doubled; any other character kept.
pub open spec fn quote_doubled(c: char) -> Seq<char> {
    if c == '"' {
        seq!['"', '"']
    } else {
        seq![c]
    }
}

/// The substitution that doubles quotes.
pub open spec fn doubling() -> spec_fn(char) -> Seq<char> {
    |c: char| quote_doubled(c)
}

/// A field as written to a CSV row: quoted, with inner quotes doubled,
/// when it holds a delimiter, a quote or a line break; as it is
/// otherwise.
pub open spec fn csv_field_of(s: Seq<char>) -> Seq<char> {
    if needs_quoting(s) {
        seq!['"'] + flat_map_chars(s, doubling()) + seq!['"']
    } else {
        s
    }
}

/// Reading doubled quotes back as single ones.
pub open spec fn undouble(s: Seq<char>) -> Seq<char>
    decreases s.len(),
{
    if s.len() == 0 {
        Seq::<char>::empty()
    } else if s.len() >= 2 && s[0] == '"' && s[1] == '"' {
        seq!['"'] + undouble(s.skip(2))
    } else {
        seq![s[0]] + undouble(s.skip(1))
    }
}

/// How a CSV reader reads one field back: a quoted field loses its
/// quotes and has its doubled quotes undone; any other is taken as it
/// is.
pub open spec fn csv_unquote(f: Seq<char>) -> Seq<char> {
    if f.len() >= 2 && f[0] == '"' && f.last() == '"' {
        undouble(f.subrange(1, f.len() - 1))
    } else {
        f
    }
}

fn is_csv_special(c: char) -> (r: bool)
    ensures
        r == csv_special(c),
{
    c == ',' || c == '"' || c == '\n'
}

/// Quotes a CSV field when it contains delimiters or quotes.
pub fn csv_field(value: &str) -> (r: String)
    ensures
        r@ == csv_field_of(value@),
{
    let v = chars_of(value);
    let n = v.len();
    let mut i: usize = 0;
    while i < n && !is_csv_special(v[i])
        invariant
            n == v@.len(),
            i <= n,
            forall|k: int| 0 <= k < i ==> !csv_special(#[trigger] v@[k]),
        decreases n - i,
    {
        i += 1;
    }
    if i == n {
        return string_of(&v);
    }
    assert(csv_special(v@[i as int]));
    let mut out: Vec<char> = Vec::new();
    out.push('"');
    let mut j: usize = 0;
    assert(v@.take(0) =~= Seq::<char>::empty());
    assert(out@ =~= seq!['"'] + flat_map_chars(v@.take(0), doubling()));
    while j < n
        invariant
            n == v@.len(),
            j <= n,
            out@ == seq!['"'] + flat_map_chars(v@.take(j as int), doubling()),
        decreases n - j,
    {
        let c = v[j];
        if c == '"' {
            out.push('"');
            out.push('"');
        } else {
            out.push(c);
        }
        proof {
            let t = v@.take(j + 1);
            assert(t.drop_last() =~= v@.take(j as int));
            assert(t.last() == c);
            assert(out@ =~= seq!['"'] + flat_map_chars(v@.take(j as int), doubling())
                + quote_doubled(c));
        }
        j += 1;
    }
    out.push('"');
    assert(v@.take(n as int) =~= v@);
    string_of(&out)
}

proof fn lemma_undouble(v: Seq<char>)
    ensures
        undouble(flat_map_chars(v, doubling())) == v,
    decreases v.len(),
{
    if v.len() == 0 {
        assert(flat_map_chars(v, doubling()) =~= Seq::<char>::empty());
    } else {
        lemma_flat_map_first(v, doubling());
        let e = flat_map_chars(v.drop_first(), doubling());
        lemma_undouble(v.drop_first());
        let s = quote_doubled(v[0]) + e;
        if v[0] == '"' {
            assert(s.skip(2) =~= e);
            assert(s[0] == '"' && s[1] == '"');
        } else {
            assert(s.skip(1) =~= e);
            assert(s[0] == v[0]);
        }
        assert(seq![v[0]] + v.drop_first() =~= v);
    }
}

/// A CSV reader gets back exactly the field that was written.
pub proof fn law_csv_field_round_trip(v: Seq<char>)
    ensures
        csv_unquote(csv_field_of(v)) == v,
{
    if needs_quoting(v) {
        let d = flat_map_chars(v, doubling());
        let f = seq!['"'] + d + seq!['"'];
        assert(f.subrange(1, f.len() - 1) =~= d);
        lemma_undouble(v);
    } else {
        if v.len() >= 2 && v[0] == '"' {
            assert(csv_special(v[0]));
        }
    }
}

// ── The window of recent records ─────────────────────────────────────────────

/// How many leading records to drop so that at most `limit` remain.
pub open spec fn dropped_count(len: nat, limit: nat) -> nat {
    if len > limit {
        (len - limit) as nat
    } else {
        0
    }
}

/// Keeps the last `limit` records (all of them when there are fewer), in
/// their order.
pub fn keep_last<T>(records: Vec<T>, limit: usize) -> (r: Vec<T>)
    ensures
        r@ == records@.skip(dropped_count(records@.len(), limit as nat) as int),
{
    let skip = if records.len() > limit {
        records.len() - limit
    } else {
        0
    };
    let mut all = records;
    let kept = all.split_off(skip);
    kept
}

/// At most `limit` records are kept, and they are the newest ones.
pub proof fn law_keep_last_is_newest<T>(records: Seq<T>, limit: nat)
    ensures
        records.skip(dropped_count(records.len(), limit) as int).len() <= limit,
        records.skip(dropped_count(records.len(), limit) as int).len() == if records.len() < limit {
            records.len()
        } else {
            limit
        },
        records.skip(dropped_count(records.len(), limit) as int).is_suffix_of(records),
{
    let k = dropped_count(records.len(), limit) as int;
    assert(records.subrange(records.len() - records.skip(k).len(), records.len() as int)
        =~= records.skip(k));
}

} // verus!
