use vstd::prelude::*;
use crate::value::{Value, deref, lookup, table_get};

verus! {

/// The segments of a query: the text between dots, in order. A query with
/// `n` dots has `n + 1` segments, empty ones included.
pub open spec fn split_dots(q: Seq<char>) -> Seq<Seq<char>>
    decreases q.len(),
{
    if q.len() == 0 {
        seq![Seq::<char>::empty()]
    } else {
        let front = split_dots(q.drop_last());
        if q.last() == '.' {
            front.push(Seq::<char>::empty())
        } else {
            front.update(front.len() - 1, front.last().push(q.last()))
        }
    }
}

pub open spec fn is_digit(c: char) -> bool {
    '0' <= c && c <= '9'
}

pub open spec fn digit_value(c: char) -> nat {
    (c as int - '0' as int) as nat
}

/// The number that a string of decimal digits denotes.
pub open spec fn digits_value(d: Seq<char>) -> nat
    decreases d.len(),
{
    if d.len() == 0 {
        0
    } else {
        digits_value(d.drop_last()) * 10 + digit_value(d.last())
    }
}

pub open spec fn all_digits(d: Seq<char>) -> bool {
    forall|i: int| 0 <= i < d.len() ==> is_digit(#[trigger] d[i])
}

/// The digits of an index: the text after one optional leading `+`.
pub open spec fn index_digits(s: Seq<char>) -> Seq<char> {
    if s.len() > 0 && s[0] == '+' {
        s.subrange(1, s.len() as int)
    } else {
        s
    }
}

/// An array index written in a segment: one or more decimal digits, after an
/// optional `+`, whose value fits in a `usize`.
pub open spec fn index_of(s: Seq<char>) -> Option<nat> {
    let d = index_digits(s);
    if d.len() > 0 && all_digits(d) && digits_value(d) <= usize::MAX {
        Some(digits_value(d))
    } else {
        None
    }
}

/// One step of resolution: the child of `v` that the segment names.
pub open spec fn child(v: Value, seg: Seq<char>) -> Option<Value> {
    match v {
        Value::Table(entries) => lookup(entries@, seg),
        Value::Array(items) => match index_of(seg) {
            Some(n) => if n < items@.len() {
                Some(items@[n as int])
            } else {
                None
            },
            None => None,
        },
        _ => None,
    }
}

/// Follows the segments one by one from `v`; `None` as soon as one of them
/// names no child.
pub open spec fn follow(v: Value, segs: Seq<Seq<char>>) -> Option<Value>
    decreases segs.len(),
{
    if segs.len() == 0 {
        Some(v)
    } else {
        match child(v, segs[0]) {
            Some(c) => follow(c, segs.subrange(1, segs.len() as int)),
            None => None,
        }
    }
}

/// What a query selects in a document.
pub open spec fn resolve_spec(root: Value, q: Seq<char>) -> Option<Value> {
    follow(root, split_dots(q))
}

pub open spec fn views(segs: Seq<&str>) -> Seq<Seq<char>> {
    segs.map_values(|s: &str| s@)
}

proof fn lemma_prefix_value_le(d: Seq<char>, k: int)
    requires
        0 <= k <= d.len(),
    ensures
        digits_value(d.subrange(0, k)) <= digits_value(d),
    decreases d.len() - k,
{
    if k < d.len() {
        lemma_prefix_value_le(d, k + 1);
        assert(d.subrange(0, k + 1).drop_last() =~= d.subrange(0, k));
    } else {
        assert(d.subrange(0, k) =~= d);
    }
}

/// Reads an array index from a segment.
pub fn parse_index(s: &str) -> (r: Option<usize>)
    ensures
        r matches Some(n) ==> index_of(s@) == Some(n as nat),
        r is None ==> index_of(s@) is None,
{
    let n = s.unicode_len();
    let start: usize = if n > 0 && s.get_char(0) == '+' { 1 } else { 0 };
    let ghost d = index_digits(s@);
    assert(d =~= s@.subrange(start as int, n as int));
    if start == n {
        return None;
    }
    let mut acc: usize = 0;
    let mut i: usize = start;
    while i < n
        invariant
            start <= i <= n,
            n == s@.len(),
            d == s@.subrange(start as int, n as int),
            d == index_digits(s@),
            all_digits(d.subrange(0, i - start)),
            acc as nat == digits_value(d.subrange(0, i - start)),
        decreases n - i,
    {
        let c = s.get_char(i);
        assert(d.subrange(0, i - start + 1).drop_last() =~= d.subrange(0, i - start));
        assert(d[i - start] == c);
        assert(d.subrange(0, i - start + 1).last() == c);
        if c < '0' || c > '9' {
            assert(!is_digit(d[i - start]));
            return None;
        }
        let v = (c as u32 - '0' as u32) as usize;
        match acc.checked_mul(10) {
            Some(m) => match m.checked_add(v) {
                Some(a) => {
                    acc = a;
                },
                None => {
                    proof { lemma_prefix_value_le(d, i - start + 1); }
                    return None;
                },
            },
            None => {
                proof { lemma_prefix_value_le(d, i - start + 1); }
                return None;
            },
        }
        i = i + 1;
    }
    assert(d.subrange(0, n - start) =~= d);
    Some(acc)
}

} // verus!

verus! {

proof fn lemma_views_push(s: Seq<&str>, x: &str)
    ensures
        views(s.push(x)) == views(s).push(x@),
{
    assert(views(s.push(x)) =~= views(s).push(x@));
}

/// Cuts a query at every dot.
pub fn split_query(q: &str) -> (r: Vec<&str>)
    ensures
        views(r@) == split_dots(q@),
{
    let n = q.unicode_len();
    let mut done: Vec<&str> = Vec::new();
    let mut start: usize = 0;
    let mut i: usize = 0;
    assert(views(done@) =~= Seq::<Seq<char>>::empty());
    assert(q@.subrange(0, 0) =~= Seq::<char>::empty());
    assert(q@.subrange(0, 0) =~= q@.subrange(0, 0).subrange(0, 0));
    while i < n
        invariant
            n == q@.len(),
            start <= i <= n,
            split_dots(q@.subrange(0, i as int)) == views(done@).push(
                q@.subrange(start as int, i as int),
            ),
        decreases n - i,
    {
        let c = q.get_char(i);
        let ghost pre = q@.subrange(0, i + 1);
        assert(pre.drop_last() =~= q@.subrange(0, i as int));
        assert(pre.last() == c);
        if c == '.' {
            let seg = q.substring_char(start, i);
            proof { lemma_views_push(done@, seg); }
            done.push(seg);
            start = i + 1;
            assert(q@.subrange(start as int, start as int) =~= Seq::<char>::empty());
        } else {
            assert(q@.subrange(start as int, i as int).push(c) =~= q@.subrange(start as int, i + 1));
            let ghost front = views(done@).push(q@.subrange(start as int, i as int));
            assert(front.update(front.len() - 1, front.last().push(c)) =~= views(done@).push(
                q@.subrange(start as int, i + 1),
            ));
        }
        i = i + 1;
    }
    let seg = q.substring_char(start, n);
    proof { lemma_views_push(done@, seg); }
    done.push(seg);
    assert(q@.subrange(0, n as int) =~= q@);
    done
}

/// Selects the value that a dot-separated query names: each segment is a
/// key of a table or an index into an array.
pub fn resolve<'a>(root: &'a Value, query: &str) -> (r: Option<&'a Value>)
    ensures
        deref(r) == resolve_spec(*root, query@),
{
    let segs = split_query(query);
    let ghost s = views(segs@);
    let mut cur: &'a Value = root;
    let mut j: usize = 0;
    assert(s.subrange(0, s.len() as int) =~= s);
    while j < segs.len()
        invariant
            s == views(segs@),
            j <= segs@.len(),
            resolve_spec(*root, query@) == follow(*cur, s.subrange(j as int, s.len() as int)),
        decreases segs@.len() - j,
    {
        let seg = segs[j];
        let ghost rest = s.subrange(j as int, s.len() as int);
        assert(rest[0] == seg@);
        assert(rest.subrange(1, rest.len() as int) =~= s.subrange(j + 1, s.len() as int));
        let next = match cur {
            Value::Table(entries) => table_get(entries, seg),
            Value::Array(items) => match parse_index(seg) {
                Some(k) => if k < items.len() {
                    Some(&items[k])
                } else {
                    None
                },
                None => None,
            },
            _ => None,
        };
        match next {
            Some(c) => {
                cur = c;
            },
            None => {
                return None;
            },
        }
        j = j + 1;
    }
    Some(cur)
}

} // verus!

verus! {

/// The `k`-th segment is where following fails: the segments before it lead
/// to a value, and it names no child of that value.
pub open spec fn fails_at(v: Value, segs: Seq<Seq<char>>, k: int) -> bool {
    &&& 0 <= k < segs.len()
    &&& match follow(v, segs.subrange(0, k)) {
        Some(c) => child(c, segs[k]) is None,
        None => false,
    }
}

/// Following segments fails exactly when some segment, reached along the
/// way, names no child of the value that the segments before it led to.
pub proof fn follow_fails_iff_some_step_fails(v: Value, segs: Seq<Seq<char>>)
    ensures
        follow(v, segs) is None <==> exists|k: int| #[trigger] fails_at(v, segs, k),
    decreases segs.len(),
{
    assert(segs.subrange(0, 0).len() == 0);
    if segs.len() > 0 {
        let rest = segs.subrange(1, segs.len() as int);
        match child(v, segs[0]) {
            None => {
                assert(follow(v, segs.subrange(0, 0)) == Some(v));
                assert(fails_at(v, segs, 0));
            },
            Some(c) => {
                follow_fails_iff_some_step_fails(c, rest);
                assert forall|k: int| 1 <= k <= segs.len() implies #[trigger] follow(
                    v,
                    segs.subrange(0, k),
                ) == follow(c, rest.subrange(0, k - 1)) by {
                    let pre = segs.subrange(0, k);
                    assert(pre[0] == segs[0]);
                    assert(pre.subrange(1, pre.len() as int) =~= rest.subrange(0, k - 1));
                }
                if follow(v, segs) is None {
                    let k1 = choose|k: int| #[trigger] fails_at(c, rest, k);
                    assert(follow(v, segs.subrange(0, k1 + 1)) == follow(c, rest.subrange(0, k1)));
                    assert(segs[k1 + 1] == rest[k1]);
                    assert(fails_at(v, segs, k1 + 1));
                } else {
                    assert forall|k: int| !#[trigger] fails_at(v, segs, k) by {
                        if 0 <= k < segs.len() {
                            if k == 0 {
                                assert(follow(v, segs.subrange(0, 0)) == Some(v));
                            } else {
                                assert(follow(v, segs.subrange(0, k)) == follow(c, rest.subrange(0, k - 1)));
                                assert(segs[k] == rest[k - 1]);
                                assert(!fails_at(c, rest, k - 1));
                            }
                        }
                    }
                }
            },
        }
    }
}

/// A query selects nothing exactly when one of its segments fails to
/// dereference: a missing key, an index that is not a number or out of
/// range, or a segment left over at a scalar.
pub proof fn resolve_fails_iff_some_step_fails(root: Value, q: Seq<char>)
    ensures
        resolve_spec(root, q) is None <==> exists|k: int| #[trigger] fails_at(root, split_dots(q), k),
{
    follow_fails_iff_some_step_fails(root, split_dots(q));
}

} // verus!
