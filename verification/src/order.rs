//! Deterministic ordering of bind parameters: a value-sorted,
//! duplicate-free list, the duplicate kept being the earliest occurrence.
use vstd::prelude::*;

use crate::parser::Parsed;

verus! {

/// Strict lexicographic order on character sequences, by code point.
pub open spec fn chars_lt(a: Seq<char>, b: Seq<char>) -> bool
    decreases a.len(),
{
    if b.len() == 0 {
        false
    } else if a.len() == 0 {
        true
    } else if a[0] != b[0] {
        (a[0] as u32) < (b[0] as u32)
    } else {
        chars_lt(a.skip(1), b.skip(1))
    }
}

proof fn lemma_chars_lt_step(a: Seq<char>, b: Seq<char>, i: int)
    requires
        0 <= i < a.len(),
        i < b.len(),
        a[i] == b[i],
    ensures
        chars_lt(a.skip(i), b.skip(i)) == chars_lt(a.skip(i + 1), b.skip(i + 1)),
{
    assert(a.skip(i).skip(1) =~= a.skip(i + 1));
    assert(b.skip(i).skip(1) =~= b.skip(i + 1));
}

/// Compares two names in the lexicographic order `chars_lt`.
pub fn str_lt(a: &String, b: &String) -> (r: bool)
    ensures
        r == chars_lt(a@, b@),
{
    proof {
        assert(a@.skip(0) =~= a@);
        assert(b@.skip(0) =~= b@);
    }
    let alen = a.as_str().unicode_len();
    let blen = b.as_str().unicode_len();
    let mut i: usize = 0;
    loop
        invariant
            i <= alen,
            i <= blen,
            alen == a@.len(),
            blen == b@.len(),
            chars_lt(a@, b@) == chars_lt(a@.skip(i as int), b@.skip(i as int)),
        decreases alen - i,
    {
        if i == blen {
            return false;
        }
        if i == alen {
            return true;
        }
        let ca = a.as_str().get_char(i);
        let cb = b.as_str().get_char(i);
        if ca != cb {
            proof {
                assert(a@.skip(i as int)[0] == a@[i as int]);
                assert(b@.skip(i as int)[0] == b@[i as int]);
            }
            return (ca as u32) < (cb as u32);
        }
        proof {
            lemma_chars_lt_step(a@, b@, i as int);
        }
        i += 1;
    }
}

/// Inserts a named bind parameter into a value-sorted, duplicate-free
/// list: before the first strictly larger name; dropped when its name is
/// already present.
pub open spec fn insert_bind_name(s: Seq<Parsed<String>>, x: Parsed<String>) -> Seq<Parsed<String>>
    decreases s.len(),
{
    if s.len() == 0 {
        seq![x]
    } else if x.value@ == s[0].value@ {
        s
    } else if chars_lt(x.value@, s[0].value@) {
        seq![x] + s
    } else {
        seq![s[0]] + insert_bind_name(s.skip(1), x)
    }
}

/// The value-sorted, duplicate-free image of a named bind-parameter list;
/// of several parameters with one name, the earliest occurrence survives.
pub open spec fn sorted_dedup_names(s: Seq<Parsed<String>>) -> Seq<Parsed<String>>
    decreases s.len(),
{
    if s.len() == 0 {
        Seq::empty()
    } else {
        insert_bind_name(sorted_dedup_names(s.drop_last()), s.last())
    }
}

/// Performs one sorted insertion, in place.
#[verifier::loop_isolation(false)]
pub fn insert_bind_name_exec(acc: &mut Vec<Parsed<String>>, x: Parsed<String>)
    ensures
        final (acc)@ == insert_bind_name(old(acc)@, x),
{
    let ghost s0 = acc@;
    proof {
        assert(s0.skip(0) =~= s0);
        assert(s0.subrange(0, 0) + insert_bind_name(s0, x) =~= insert_bind_name(s0, x));
    }
    let n = acc.len();
    let mut j: usize = 0;
    loop
        invariant
            j <= n,
            n == acc@.len(),
            acc@ == s0,
            insert_bind_name(s0, x) == s0.subrange(0, j as int) + insert_bind_name(
                s0.skip(j as int),
                x,
            ),
        decreases n - j,
    {
        if j == n {
            proof {
                assert(s0.skip(n as int).len() == 0);
            }
            acc.push(x);
            proof {
                assert(s0.subrange(0, n as int) =~= s0);
                assert(acc@ =~= s0.subrange(0, n as int) + insert_bind_name(s0.skip(n as int), x));
            }
            return ;
        }
        if acc[j].value == x.value {
            proof {
                assert(s0.skip(j as int)[0] == s0[j as int]);
                assert(insert_bind_name(s0.skip(j as int), x) == s0.skip(j as int));
                assert(s0.subrange(0, j as int) + s0.skip(j as int) =~= s0);
            }
            return ;
        }
        if str_lt(&x.value, &acc[j].value) {
            proof {
                assert(s0.skip(j as int)[0] == s0[j as int]);
                assert(insert_bind_name(s0.skip(j as int), x) == seq![x] + s0.skip(j as int));
            }
            acc.insert(j, x);
            proof {
                assert(acc@ =~= s0.subrange(0, j as int) + (seq![x] + s0.skip(j as int)));
            }
            return ;
        }
        proof {
            let jj = j as int;
            assert(s0.skip(jj)[0] == s0[jj]);
            assert(s0.skip(jj).skip(1) =~= s0.skip(jj + 1));
            assert(insert_bind_name(s0.skip(jj), x) == seq![s0[jj]] + insert_bind_name(
                s0.skip(jj + 1),
                x,
            ));
            assert(s0.subrange(0, jj) + (seq![s0[jj]] + insert_bind_name(s0.skip(jj + 1), x)) =~= (
            s0.subrange(0, jj) + seq![s0[jj]]) + insert_bind_name(s0.skip(jj + 1), x));
            assert(s0.subrange(0, jj) + seq![s0[jj]] =~= s0.subrange(0, jj + 1));
        }
        j += 1;
    }
}

/// Builds the value-sorted, duplicate-free list of named bind parameters.
pub fn sorted_dedup_names_exec(v: &Vec<Parsed<String>>) -> (r: Vec<Parsed<String>>)
    ensures
        r@ == sorted_dedup_names(v@),
{
    let n = v.len();
    let mut r: Vec<Parsed<String>> = Vec::new();
    let mut i: usize = 0;
    while i < n
        invariant
            n == v@.len(),
            i <= n,
            r@ == sorted_dedup_names(v@.subrange(0, i as int)),
        decreases n - i,
    {
        insert_bind_name_exec(&mut r, crate::validation::dup_parsed_string(&v[i]));
        proof {
            assert(v@.subrange(0, i as int + 1).drop_last() =~= v@.subrange(0, i as int));
            assert(v@.subrange(0, i as int + 1).last() == v@[i as int]);
        }
        i += 1;
    }
    proof {
        assert(v@.subrange(0, n as int) =~= v@);
    }
    r
}

/// Inserts a narrowed bind index into a value-sorted, duplicate-free
/// list: before the first strictly larger index; dropped when its value is
/// already present.
pub open spec fn insert_bind_index(s: Seq<Parsed<i16>>, x: Parsed<i16>) -> Seq<Parsed<i16>>
    decreases s.len(),
{
    if s.len() == 0 {
        seq![x]
    } else if x.value == s[0].value {
        s
    } else if x.value < s[0].value {
        seq![x] + s
    } else {
        seq![s[0]] + insert_bind_index(s.skip(1), x)
    }
}

/// The value-sorted, duplicate-free image of a narrowed bind-index list;
/// of several parameters with one index, the earliest occurrence survives.
pub open spec fn sorted_dedup_indices(s: Seq<Parsed<i16>>) -> Seq<Parsed<i16>>
    decreases s.len(),
{
    if s.len() == 0 {
        Seq::empty()
    } else {
        insert_bind_index(sorted_dedup_indices(s.drop_last()), s.last())
    }
}

/// Performs one sorted insertion, in place.
#[verifier::loop_isolation(false)]
pub fn insert_bind_index_exec(acc: &mut Vec<Parsed<i16>>, x: Parsed<i16>)
    ensures
        final (acc)@ == insert_bind_index(old(acc)@, x),
{
    let ghost s0 = acc@;
    proof {
        assert(s0.skip(0) =~= s0);
        assert(s0.subrange(0, 0) + insert_bind_index(s0, x) =~= insert_bind_index(s0, x));
    }
    let n = acc.len();
    let mut j: usize = 0;
    loop
        invariant
            j <= n,
            n == acc@.len(),
            acc@ == s0,
            insert_bind_index(s0, x) == s0.subrange(0, j as int) + insert_bind_index(
                s0.skip(j as int),
                x,
            ),
        decreases n - j,
    {
        if j == n {
            proof {
                assert(s0.skip(n as int).len() == 0);
            }
            acc.push(x);
            proof {
                assert(s0.subrange(0, n as int) =~= s0);
                assert(acc@ =~= s0.subrange(0, n as int) + insert_bind_index(s0.skip(n as int), x));
            }
            return ;
        }
        if acc[j].value == x.value {
            proof {
                assert(s0.skip(j as int)[0] == s0[j as int]);
                assert(insert_bind_index(s0.skip(j as int), x) == s0.skip(j as int));
                assert(s0.subrange(0, j as int) + s0.skip(j as int) =~= s0);
            }
            return ;
        }
        if x.value < acc[j].value {
            proof {
                assert(s0.skip(j as int)[0] == s0[j as int]);
                assert(insert_bind_index(s0.skip(j as int), x) == seq![x] + s0.skip(j as int));
            }
            acc.insert(j, x);
            proof {
                assert(acc@ =~= s0.subrange(0, j as int) + (seq![x] + s0.skip(j as int)));
            }
            return ;
        }
        proof {
            let jj = j as int;
            assert(s0.skip(jj)[0] == s0[jj]);
            assert(s0.skip(jj).skip(1) =~= s0.skip(jj + 1));
            assert(insert_bind_index(s0.skip(jj), x) == seq![s0[jj]] + insert_bind_index(
                s0.skip(jj + 1),
                x,
            ));
            assert(s0.subrange(0, jj) + (seq![s0[jj]] + insert_bind_index(s0.skip(jj + 1), x)) =~= (
            s0.subrange(0, jj) + seq![s0[jj]]) + insert_bind_index(s0.skip(jj + 1), x));
            assert(s0.subrange(0, jj) + seq![s0[jj]] =~= s0.subrange(0, jj + 1));
        }
        j += 1;
    }
}

/// Builds the value-sorted, duplicate-free list of narrowed bind indices.
pub fn sorted_dedup_indices_exec(v: &Vec<Parsed<i16>>) -> (r: Vec<Parsed<i16>>)
    ensures
        r@ == sorted_dedup_indices(v@),
{
    let n = v.len();
    let mut r: Vec<Parsed<i16>> = Vec::new();
    let mut i: usize = 0;
    while i < n
        invariant
            n == v@.len(),
            i <= n,
            r@ == sorted_dedup_indices(v@.subrange(0, i as int)),
        decreases n - i,
    {
        let p = Parsed { start: v[i].start, end: v[i].end, value: v[i].value };
        insert_bind_index_exec(&mut r, p);
        proof {
            assert(v@.subrange(0, i as int + 1).drop_last() =~= v@.subrange(0, i as int));
            assert(v@.subrange(0, i as int + 1).last() == v@[i as int]);
        }
        i += 1;
    }
    proof {
        assert(v@.subrange(0, n as int) =~= v@);
    }
    r
}

/// Names strictly increase along the list.
pub open spec fn strictly_sorted_names(s: Seq<Parsed<String>>) -> bool {
    forall|i: int|
        0 <= i < s.len() - 1 ==> chars_lt((#[trigger] s[i]).value@, s[i + 1].value@)
}

/// `chars_lt` is total: two names compare one way or are equal.
proof fn lemma_chars_lt_total(a: Seq<char>, b: Seq<char>)
    ensures
        chars_lt(a, b) || chars_lt(b, a) || a =~= b,
    decreases a.len(),
{
    if b.len() == 0 {
        if a.len() == 0 {
            assert(a =~= b);
        } else {
            assert(chars_lt(b, a));
        }
    } else if a.len() == 0 {
        assert(chars_lt(a, b));
    } else if a[0] != b[0] {
        vstd::utf8::char_u32_cast(a[0], a[0] as u32);
        vstd::utf8::char_u32_cast(b[0], b[0] as u32);
        assert((a[0] as u32) != (b[0] as u32));
        assert(chars_lt(a, b) == ((a[0] as u32) < (b[0] as u32)));
        assert(chars_lt(b, a) == ((b[0] as u32) < (a[0] as u32)));
    } else {
        lemma_chars_lt_total(a.skip(1), b.skip(1));
        if !chars_lt(a.skip(1), b.skip(1)) && !chars_lt(b.skip(1), a.skip(1)) {
            assert(a.skip(1) =~= b.skip(1));
            assert forall|i: int| 0 <= i < a.len() implies a[i] == b[i] by {
                if i > 0 {
                    assert(a.skip(1)[i - 1] == a[i]);
                    assert(b.skip(1)[i - 1] == b[i]);
                }
            }
            assert(a =~= b);
        }
    }
}

/// Sorted insertion keeps names strictly increasing.
proof fn lemma_insert_name_sorted(s: Seq<Parsed<String>>, x: Parsed<String>)
    requires
        strictly_sorted_names(s),
    ensures
        strictly_sorted_names(insert_bind_name(s, x)),
    decreases s.len(),
{
    let t = insert_bind_name(s, x);
    if s.len() == 0 {
    } else if x.value@ == s[0].value@ {
    } else if chars_lt(x.value@, s[0].value@) {
        assert forall|i: int| 0 <= i < t.len() - 1 implies chars_lt(
            (#[trigger] t[i]).value@,
            t[i + 1].value@,
        ) by {
            if i == 0 {
                assert(t[0] == x);
                assert(t[1] == s[0]);
            } else {
                assert(t[i] == s[i - 1]);
                assert(t[i + 1] == s[i]);
            }
        }
    } else {
        assert forall|i: int| 0 <= i < s.skip(1).len() - 1 implies chars_lt(
            (#[trigger] s.skip(1)[i]).value@,
            s.skip(1)[i + 1].value@,
        ) by {
            assert(s.skip(1)[i] == s[i + 1]);
            assert(s.skip(1)[i + 1] == s[i + 2]);
        }
        lemma_insert_name_sorted(s.skip(1), x);
        let u = insert_bind_name(s.skip(1), x);
        lemma_chars_lt_total(x.value@, s[0].value@);
        assert(chars_lt(s[0].value@, x.value@));
        assert(chars_lt(s[0].value@, u[0].value@)) by {
            if s.skip(1).len() == 0 {
                assert(u[0] == x);
            } else if x.value@ == s.skip(1)[0].value@ {
                assert(u[0] == s[1]);
            } else if chars_lt(x.value@, s.skip(1)[0].value@) {
                assert(u[0] == x);
            } else {
                assert(u[0] == s.skip(1)[0]);
                assert(u[0] == s[1]);
            }
        }
        assert forall|i: int| 0 <= i < t.len() - 1 implies chars_lt(
            (#[trigger] t[i]).value@,
            t[i + 1].value@,
        ) by {
            if i == 0 {
                assert(t[0] == s[0]);
                assert(t[1] == u[0]);
            } else {
                assert(t[i] == u[i - 1]);
                assert(t[i + 1] == u[i]);
            }
        }
    }
}

/// The deduplicated bind-parameter list is value-sorted: its names
/// strictly increase, so the order is total and deterministic.
pub proof fn lemma_sorted_dedup_names_sorted(s: Seq<Parsed<String>>)
    ensures
        strictly_sorted_names(sorted_dedup_names(s)),
    decreases s.len(),
{
    if s.len() == 0 {
    } else {
        lemma_sorted_dedup_names_sorted(s.drop_last());
        lemma_insert_name_sorted(sorted_dedup_names(s.drop_last()), s.last());
    }
}

/// Indices strictly increase along the list.
pub open spec fn strictly_sorted_indices(s: Seq<Parsed<i16>>) -> bool {
    forall|i: int| 0 <= i < s.len() - 1 ==> (#[trigger] s[i]).value < s[i + 1].value
}

/// Sorted insertion keeps indices strictly increasing.
proof fn lemma_insert_index_sorted(s: Seq<Parsed<i16>>, x: Parsed<i16>)
    requires
        strictly_sorted_indices(s),
    ensures
        strictly_sorted_indices(insert_bind_index(s, x)),
    decreases s.len(),
{
    let t = insert_bind_index(s, x);
    if s.len() == 0 {
    } else if x.value == s[0].value {
    } else if x.value < s[0].value {
        assert forall|i: int| 0 <= i < t.len() - 1 implies (#[trigger] t[i]).value < t[i
            + 1].value by {
            if i == 0 {
                assert(t[0] == x);
                assert(t[1] == s[0]);
            } else {
                assert(t[i] == s[i - 1]);
                assert(t[i + 1] == s[i]);
            }
        }
    } else {
        assert forall|i: int| 0 <= i < s.skip(1).len() - 1 implies (#[trigger] s.skip(1)[i]).value
            < s.skip(1)[i + 1].value by {
            assert(s.skip(1)[i] == s[i + 1]);
            assert(s.skip(1)[i + 1] == s[i + 2]);
        }
        lemma_insert_index_sorted(s.skip(1), x);
        let u = insert_bind_index(s.skip(1), x);
        assert(s[0].value < u[0].value) by {
            if s.skip(1).len() == 0 {
                assert(u[0] == x);
            } else if x.value == s.skip(1)[0].value {
                assert(u[0] == s[1]);
            } else if x.value < s.skip(1)[0].value {
                assert(u[0] == x);
            } else {
                assert(u[0] == s[1]);
            }
        }
        assert forall|i: int| 0 <= i < t.len() - 1 implies (#[trigger] t[i]).value < t[i
            + 1].value by {
            if i == 0 {
                assert(t[0] == s[0]);
                assert(t[1] == u[0]);
            } else {
                assert(t[i] == u[i - 1]);
                assert(t[i + 1] == u[i]);
            }
        }
    }
}

/// The deduplicated bind-index list is value-sorted: its indices strictly
/// increase, so the order is total and deterministic.
pub proof fn lemma_sorted_dedup_indices_sorted(s: Seq<Parsed<i16>>)
    ensures
        strictly_sorted_indices(sorted_dedup_indices(s)),
    decreases s.len(),
{
    if s.len() == 0 {
    } else {
        lemma_sorted_dedup_indices_sorted(s.drop_last());
        lemma_insert_index_sorted(sorted_dedup_indices(s.drop_last()), s.last());
    }
}

/// Every index of a sorted insertion comes from the list or is the
/// inserted one, so a lower bound on the values is preserved.
proof fn lemma_insert_index_bound(s: Seq<Parsed<i16>>, x: Parsed<i16>, lo: i16)
    requires
        forall|i: int| 0 <= i < s.len() ==> (#[trigger] s[i]).value >= lo,
        x.value >= lo,
    ensures
        forall|i: int|
            0 <= i < insert_bind_index(s, x).len() ==> (#[trigger] insert_bind_index(s, x)[
            i]).value >= lo,
    decreases s.len(),
{
    let t = insert_bind_index(s, x);
    if s.len() == 0 {
        assert(t[0] == x);
    } else if x.value == s[0].value {
    } else if x.value < s[0].value {
        assert forall|i: int| 0 <= i < t.len() implies (#[trigger] t[i]).value >= lo by {
            if i == 0 {
                assert(t[0] == x);
            } else {
                assert(t[i] == s[i - 1]);
            }
        }
    } else {
        assert(forall|i: int| 0 <= i < s.skip(1).len() ==> (#[trigger] s.skip(1)[i]).value >= lo);
        lemma_insert_index_bound(s.skip(1), x, lo);
        let u = insert_bind_index(s.skip(1), x);
        assert forall|i: int| 0 <= i < t.len() implies (#[trigger] t[i]).value >= lo by {
            if i == 0 {
                assert(t[0] == s[0]);
            } else {
                assert(t[i] == u[i - 1]);
            }
        }
    }
}

/// A lower bound on the values survives sorting and deduplication.
pub proof fn lemma_sorted_dedup_index_bound(s: Seq<Parsed<i16>>, lo: i16)
    requires
        forall|i: int| 0 <= i < s.len() ==> (#[trigger] s[i]).value >= lo,
    ensures
        forall|i: int|
            0 <= i < sorted_dedup_indices(s).len() ==> (#[trigger] sorted_dedup_indices(s)[
            i]).value >= lo,
    decreases s.len(),
{
    if s.len() == 0 {
    } else {
        assert(forall|i: int|
            0 <= i < s.drop_last().len() ==> (#[trigger] s.drop_last()[i]).value >= lo);
        lemma_sorted_dedup_index_bound(s.drop_last(), lo);
        lemma_insert_index_bound(sorted_dedup_indices(s.drop_last()), s.last(), lo);
    }
}

} // verus!
