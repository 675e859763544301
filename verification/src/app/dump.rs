use vstd::prelude::*;
use crate::text::{chars_of, push_char, push_str};

verus! {

/// Whether a CSV field must be quoted: it holds a comma, a quote or a
/// line break.
pub open spec fn needs_quotes(s: Seq<char>) -> bool {
    s.contains(',') || s.contains('"') || s.contains('\n')
}

/// `s` with every quote doubled.
pub open spec fn doubled_quotes(s: Seq<char>) -> Seq<char>
    decreases s.len(),
{
    if s.len() == 0 {
        Seq::empty()
    } else {
        doubled_quotes(s.drop_last()) + if s.last() == '"' {
            seq!['"', '"']
        } else {
            seq![s.last()]
        }
    }
}

/// A CSV field: as is, or quoted with inner quotes doubled where needed.
pub open spec fn spec_csv_field(s: Seq<char>) -> Seq<char> {
    if needs_quotes(s) {
        seq!['"'] + doubled_quotes(s) + seq!['"']
    } else {
        s
    }
}

/// The fields joined by commas.
pub open spec fn spec_csv_join(fields: Seq<Seq<char>>) -> Seq<char>
    decreases fields.len(),
{
    if fields.len() == 0 {
        Seq::empty()
    } else if fields.len() == 1 {
        spec_csv_field(fields[0])
    } else {
        spec_csv_join(fields.drop_last()) + seq![','] + spec_csv_field(fields.last())
    }
}

/// One field of a CSV line.
pub fn csv_field(text: &str) -> (r: String)
    ensures
        r@ == spec_csv_field(text@),
{
    let cs = chars_of(text);
    let n = cs.len();
    let mut special = false;
    let mut i: usize = 0;
    while i < n
        invariant
            i <= n,
            n == cs@.len(),
            cs@ == text@,
            special == (cs@.take(i as int).contains(',') || cs@.take(i as int).contains('"')
                || cs@.take(i as int).contains('\n')),
        decreases n - i,
    {
        let c = cs[i];
        proof {
            let p = cs@.take(i as int);
            let q = cs@.take(i + 1);
            assert(q =~= p.push(c));
            assert forall|x: char| q.contains(x) <==> (p.contains(x) || x == c) by {
                if q.contains(x) {
                    let k = choose|k: int| 0 <= k < q.len() && q[k] == x;
                    if k < p.len() {
                        assert(p[k] == x);
                    }
                }
                if p.contains(x) {
                    let k = choose|k: int| 0 <= k < p.len() && p[k] == x;
                    assert(q[k] == x);
                }
                if x == c {
                    assert(q[i as int] == x);
                }
            }
        }
        if c == ',' || c == '"' || c == '\n' {
            special = true;
        }
        i += 1;
    }
    assert(cs@.take(n as int) =~= cs@);
    if !special {
        let mut out = String::new();
        push_str(&mut out, text);
        return out;
    }
    let mut out = String::new();
    push_char(&mut out, '"');
    let mut k: usize = 0;
    while k < n
        invariant
            k <= n,
            n == cs@.len(),
            out@ == seq!['"'] + doubled_quotes(cs@.take(k as int)),
        decreases n - k,
    {
        let c = cs[k];
        assert(cs@.take(k + 1).drop_last() =~= cs@.take(k as int));
        if c == '"' {
            push_char(&mut out, '"');
            push_char(&mut out, '"');
        } else {
            push_char(&mut out, c);
        }
        k += 1;
        assert(out@ =~= seq!['"'] + doubled_quotes(cs@.take(k as int)));
    }
    push_char(&mut out, '"');
    out
}

/// A CSV line: the fields joined by commas, ended by a line break.
pub fn csv_line(fields: &[&str]) -> (r: String)
    ensures
        r@ == spec_csv_join(fields@.map_values(|f: &str| f@)) + seq!['\n'],
{
    let mut line = String::new();
    let ghost views = fields@.map_values(|f: &str| f@);
    let mut i: usize = 0;
    while i < fields.len()
        invariant
            i <= fields@.len(),
            views == fields@.map_values(|f: &str| f@),
            line@ == spec_csv_join(views.take(i as int)),
        decreases fields@.len() - i,
    {
        let ghost before = line@;
        if i > 0 {
            push_char(&mut line, ',');
        }
        let f = csv_field(fields[i]);
        push_str(&mut line, f.as_str());
        proof {
            assert(views.take(i + 1).drop_last() =~= views.take(i as int));
            assert(views.take(i + 1).last() == fields@[i as int]@);
            if i == 0 {
                assert(line@ =~= spec_csv_join(views.take(i + 1)));
            } else {
                assert(line@ =~= spec_csv_join(views.take(i + 1)));
            }
        }
        i += 1;
    }
    assert(views.take(fields@.len() as int) =~= views);
    push_char(&mut line, '\n');
    line
}

} // verus!
