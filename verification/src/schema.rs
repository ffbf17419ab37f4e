use vstd::prelude::*;
use crate::text::{escape_dq_str, push_dec, spec_dec, spec_escape_dq};

verus! {

/// The synthesized column names `c0`, `c1`, … for a table of `n` columns.
pub open spec fn spec_gen_names(n: int) -> Seq<Seq<char>> {
    Seq::new(if n < 0 { 0 } else { n as nat }, |i: int| seq!['c'] + spec_dec(i))
}

pub fn gen_names(n: usize) -> (r: Vec<String>)
    ensures
        r.deep_view() == spec_gen_names(n as int),
        r@.len() == n,
{
    let mut out: Vec<String> = Vec::new();
    let mut i: usize = 0;
    proof {
        reveal_strlit("c");
        assert(out.deep_view() =~~= spec_gen_names(0));
    }
    while i < n
        invariant
            0 <= i <= n,
            out@.len() == i,
            out.deep_view() == spec_gen_names(i as int),
        decreases n - i,
    {
        let ghost prev = out@;
        let ghost prevdv = out.deep_view();
        let mut name = String::from_str("c");
        push_dec(&mut name, i as u64);
        out.push(name);
        i = i + 1;
        proof {
            reveal_strlit("c");
            assert("c"@ =~= seq!['c']);
            assert(name@ == seq!['c'] + spec_dec(i - 1));
            assert(out@[i - 1] == name);
            assert forall|j: int| 0 <= j < i implies out.deep_view()[j] == spec_gen_names(
                i as int,
            )[j] by {
                assert(out.deep_view()[j] == out@[j].deep_view());
                if j < i - 1 {
                    assert(out@[j] == prev[j]);
                    assert(prevdv[j] == prev[j].deep_view());
                    assert(prevdv[j] == spec_gen_names((i - 1) as int)[j]);
                }
            }
            assert(out.deep_view() =~= spec_gen_names(i as int));
        }
    }
    out
}

/// Each header field with its embedded double quotes doubled, in order.
pub fn escape_cols(rec: &Vec<String>) -> (r: Vec<String>)
    ensures
        r.deep_view() == rec.deep_view().map_values(|x: Seq<char>| spec_escape_dq(x)),
{
    let n = rec.len();
    let mut out: Vec<String> = Vec::new();
    proof {
        assert(out.deep_view() =~~= rec.deep_view().subrange(0, 0).map_values(
            |x: Seq<char>| spec_escape_dq(x),
        ));
    }
    let mut i: usize = 0;
    while i < n
        invariant
            0 <= i <= n,
            n == rec@.len(),
            out@.len() == i,
            out.deep_view() == rec.deep_view().subrange(0, i as int).map_values(
                |x: Seq<char>| spec_escape_dq(x),
            ),
        decreases n - i,
    {
        let ghost prev = out@;
        let ghost prevdv = out.deep_view();
        let e = escape_dq_str(rec[i].as_str());
        out.push(e);
        i = i + 1;
        proof {
            let goal = rec.deep_view().subrange(0, i as int).map_values(
                |x: Seq<char>| spec_escape_dq(x),
            );
            assert(out@[i - 1] == e);
            assert(e@ == spec_escape_dq(rec.deep_view()[i - 1]));
            assert forall|j: int| 0 <= j < i implies out.deep_view()[j] == goal[j] by {
                assert(goal[j] == spec_escape_dq(rec.deep_view()[j]));
                assert(out.deep_view()[j] == out@[j].deep_view());
                if j < i - 1 {
                    assert(out@[j] == prev[j]);
                    assert(prevdv[j] == prev[j].deep_view());
                    assert(prevdv[j] == rec.deep_view().subrange(0, (i - 1) as int).map_values(
                        |x: Seq<char>| spec_escape_dq(x),
                    )[j]);
                }
            }
            assert(out.deep_view() =~= goal);
        }
    }
    proof {
        assert(rec.deep_view().subrange(0, n as int) =~~= rec.deep_view());
    }
    out
}

/// The tail of the generated schema from column `i` on: each name double
/// quoted and suffixed ` TEXT`, names separated by `, `, the last followed
/// by `);`.
pub open spec fn schema_tail(cols: Seq<Seq<char>>, i: int) -> Seq<char>
    decreases cols.len() - i,
{
    if i < 0 || i >= cols.len() {
        Seq::empty()
    } else {
        "\""@ + cols[i] + "\" TEXT"@ + (if i == cols.len() - 1 {
            ");"@
        } else {
            ", "@ + schema_tail(cols, i + 1)
        })
    }
}

/// The generated schema, bit for bit:
/// `CREATE TABLE x("col1" TEXT, "col2" TEXT, …);`
pub open spec fn spec_make_schema(cols: Seq<Seq<char>>) -> Seq<char> {
    "CREATE TABLE x("@ + schema_tail(cols, 0)
}

pub fn make_schema(cols: &Vec<String>) -> (r: String)
    requires
        cols@.len() > 0,
    ensures
        r@ == spec_make_schema(cols.deep_view()),
{
    let ghost dv = cols.deep_view();
    let mut out = String::from_str("CREATE TABLE x(");
    let n = cols.len();
    let mut i: usize = 0;
    proof {
        assert(dv.len() == n);
    }
    while i < n
        invariant
            0 <= i <= n,
            0 < n == cols@.len(),
            dv == cols.deep_view(),
            i < n ==> spec_make_schema(dv) == out@ + schema_tail(dv, i as int),
            i == n ==> out@ == spec_make_schema(dv),
        decreases n - i,
    {
        let ghost pre = out@;
        out.append("\"");
        out.append(cols[i].as_str());
        out.append("\" TEXT");
        if i == n - 1 {
            out.append(");");
        } else {
            out.append(", ");
        }
        i = i + 1;
        proof {
            assert(dv[i - 1] == cols@[i - 1]@);
            if i < n {
                assert(pre + schema_tail(dv, i - 1) =~= out@ + schema_tail(dv, i as int));
            } else {
                assert(pre + schema_tail(dv, i - 1) =~= out@);
            }
        }
    }
    out
}

} // verus!
