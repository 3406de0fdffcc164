//! Label text of the Prometheus node_exporter textfile output.
//!
//! The gauges carry floating-point values and are rendered by the
//! program; the label set they share, and its escaping, are here.

use vstd::prelude::*;

use crate::text::{chars_of, concat, flat_map_chars, lemma_flat_map_first, push_all, string_of};

verus! {

/// One character of a label value as written in the exposition format:
/// backslash and double quote are escaped with a backslash, and a line
/// feed is written as `\n`.
pub open spec fn label_char(c: char) -> Seq<char> {
    if c == '\\' {
        seq!['\\', '\\']
    } else if c == '"' {
        seq!['\\', '"']
    } else if c == '\n' {
        seq!['\\', 'n']
    } else {
        seq![c]
    }
}

/// The substitution that escapes label characters.
pub open spec fn label_escaping() -> spec_fn(char) -> Seq<char> {
    |c: char| label_char(c)
}

/// A label value as written.
pub open spec fn escaped(s: Seq<char>) -> Seq<char> {
    flat_map_chars(s, label_escaping())
}

/// How an exposition reader reads a label value back: `\n` is a line
/// feed, and a backslash takes any other next character literally.
pub open spec fn unescaped(s: Seq<char>) -> Seq<char>
    decreases s.len(),
{
    if s.len() == 0 {
        Seq::<char>::empty()
    } else if s.len() >= 2 && s[0] == '\\' {
        seq![if s[1] == 'n' {
            '\n'
        } else {
            s[1]
        }] + unescaped(s.skip(2))
    } else {
        seq![s[0]] + unescaped(s.skip(1))
    }
}

/// Escapes a Prometheus label value: backslash, double quote and line
/// feed.
pub fn escape(value: &str) -> (r: String)
    ensures
        r@ == escaped(value@),
{
    let v = chars_of(value);
    let n = v.len();
    let mut out: Vec<char> = Vec::new();
    let mut i: usize = 0;
    assert(v@.take(0) =~= Seq::<char>::empty());
    while i < n
        invariant
            n == v@.len(),
            i <= n,
            out@ == escaped(v@.take(i as int)),
        decreases n - i,
    {
        let c = v[i];
        if c == '\\' {
            out.push('\\');
            out.push('\\');
        } else if c == '"' {
            out.push('\\');
            out.push('"');
        } else if c == '\n' {
            out.push('\\');
            out.push('n');
        } else {
            out.push(c);
        }
        proof {
            let t = v@.take(i + 1);
            assert(t.drop_last() =~= v@.take(i as int));
            assert(t.last() == c);
            assert(out@ =~= escaped(v@.take(i as int)) + label_char(c));
        }
        i += 1;
    }
    assert(v@.take(n as int) =~= v@);
    string_of(&out)
}

/// A reader gets back exactly the label value that was written.
pub proof fn law_escape_round_trip(v: Seq<char>)
    ensures
        unescaped(escaped(v)) == v,
    decreases v.len(),
{
    if v.len() == 0 {
        assert(escaped(v) =~= Seq::<char>::empty());
    } else {
        lemma_flat_map_first(v, label_escaping());
        let e = escaped(v.drop_first());
        law_escape_round_trip(v.drop_first());
        let s = label_char(v[0]) + e;
        if v[0] == '\\' || v[0] == '"' {
            assert(s.skip(2) =~= e);
            assert(s[0] == '\\' && s[1] == v[0]);
        } else if v[0] == '\n' {
            assert(s.skip(2) =~= e);
            assert(s[0] == '\\' && s[1] == 'n');
        } else {
            assert(s.skip(1) =~= e);
            assert(s[0] == v[0]);
        }
        assert(seq![v[0]] + v.drop_first() =~= v);
    }
}

/// The label set every gauge of a report carries.
pub open spec fn label_set(server: Seq<char>, provider: Seq<char>) -> Seq<char> {
    "server=\""@ + escaped(server) + "\",provider=\""@ + escaped(provider) + "\""@
}

/// The label set every gauge of a report carries:
/// `server="…",provider="…"`, both values escaped.
pub fn labels(server: &str, provider: &str) -> (r: String)
    ensures
        r@ == label_set(server@, provider@),
{
    let mut t = chars_of("server=\"");
    push_all(&mut t, &chars_of(escape(server).as_str()));
    push_all(&mut t, &chars_of("\",provider=\""));
    push_all(&mut t, &chars_of(escape(provider).as_str()));
    let t = concat(&t, &chars_of("\""));
    string_of(&t)
}

} // verus!
