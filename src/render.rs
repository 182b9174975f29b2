use vstd::prelude::*;
use vstd::string::*;
use crate::value::Value;
use crate::style::{Style, annotate, shown, color_spec, open_marker, reset_marker, esc, contains_reset};

verus! {

pub open spec fn digit_char(d: nat) -> char {
    seq!['0', '1', '2', '3', '4', '5', '6', '7', '8', '9'][d as int]
}

/// The decimal digits of a natural number, without leading zeros.
pub open spec fn nat_digits(n: nat) -> Seq<char>
    decreases n,
{
    if n < 10 {
        seq![digit_char(n)]
    } else {
        nat_digits(n / 10).push(digit_char(n % 10))
    }
}

/// The canonical decimal text of an integer.
pub open spec fn decimal(i: int) -> Seq<char> {
    if i < 0 {
        seq!['-'] + nat_digits((-i) as nat)
    } else {
        nat_digits(i as nat)
    }
}

fn digit_str(d: u64) -> (r: &'static str)
    requires
        d < 10,
    ensures
        r@ == seq![digit_char(d as nat)],
{
    proof { reveal_strlit("0123456789"); }
    let r = "0123456789".substring_char(d as usize, d as usize + 1);
    assert(r@ =~= seq![digit_char(d as nat)]);
    r
}

/// Writes an integer in decimal.
pub fn decimal_text(i: i64) -> (r: String)
    ensures
        r@ == decimal(i as int),
{
    let n: u64 = if i < 0 { (0i128 - i as i128) as u64 } else { i as u64 };
    let mut m: u64 = n;
    let mut acc = String::from_str("");
    proof { reveal_strlit(""); }
    assert(nat_digits(n as nat) =~= nat_digits(m as nat) + acc@);
    while m >= 10
        invariant
            nat_digits(n as nat) == nat_digits(m as nat) + acc@,
        decreases m,
    {
        let d = digit_str(m % 10);
        let ghost old_acc = acc@;
        acc = String::from_str(d).concat(acc.as_str());
        assert(nat_digits(m as nat) == nat_digits((m / 10) as nat).push(digit_char((m % 10) as nat)));
        assert(nat_digits((m / 10) as nat).push(digit_char((m % 10) as nat)) + old_acc
            =~= nat_digits((m / 10) as nat) + acc@);
        m = m / 10;
    }
    let d = digit_str(m);
    let digits = String::from_str(d).concat(acc.as_str());
    if i < 0 {
        proof { reveal_strlit("-"); }
        let r = String::from_str("-").concat(digits.as_str());
        assert(r@ =~= decimal(i as int));
        r
    } else {
        digits
    }
}

} // verus!

verus! {

/// One piece of output: a run of text and the style it is shown in.
#[derive(Clone, Debug, PartialEq)]
pub struct Piece {
    pub style: Style,
    pub text: String,
}

pub open spec fn pieces_view(ps: Seq<Piece>) -> Seq<(Style, Seq<char>)> {
    ps.map_values(|p: Piece| (p.style, p.text@))
}

pub open spec fn quote() -> Seq<char> {
    seq!['"']
}

pub open spec fn bool_text(b: bool) -> Seq<char> {
    if b {
        seq!['t', 'r', 'u', 'e']
    } else {
        seq!['f', 'a', 'l', 's', 'e']
    }
}

/// The name of a nested table: its key after its parent's name and a dot.
pub open spec fn qualify(parent: Option<Seq<char>>, key: Seq<char>) -> Seq<char> {
    match parent {
        Some(p) => p + seq!['.'] + key,
        None => key,
    }
}

/// Whether a table has an entry that is not itself a table.
pub open spec fn has_direct(entries: Seq<(String, Value)>) -> bool {
    exists|i: int| 0 <= i < entries.len() && !(#[trigger] entries[i].1 is Table)
}

/// The header line of a section, after a blank line.
pub open spec fn header(name: Seq<char>) -> Seq<(Style, Seq<char>)> {
    seq![
        (Style::Plain, seq!['\n']),
        (Style::Punctuation, seq!['[']),
        (Style::SectionHeader, name),
        (Style::Punctuation, seq![']']),
        (Style::Plain, seq!['\n']),
    ]
}

/// The pieces that show a value. Scalars come as their literal text; an
/// array as its elements between brackets, separated by commas; a table as
/// one `key = value` line for each entry that is not a table, and then each
/// nested table as a section, with a header only where it has such lines.
pub open spec fn render_spec(v: Value, parent: Option<Seq<char>>) -> Seq<(Style, Seq<char>)>
    decreases v,
{
    match v {
        Value::String(s) => seq![
            (Style::StringLit, quote()),
            (Style::StringLit, s@),
            (Style::StringLit, quote()),
        ],
        Value::Integer(i) => seq![(Style::Number, decimal(i as int))],
        Value::Float(t) => seq![(Style::Number, t@)],
        Value::Boolean(b) => seq![(Style::Boolean, bool_text(b))],
        Value::Datetime(t) => seq![(Style::Timestamp, t@)],
        Value::Array(items) => seq![(Style::Punctuation, seq!['['])] + render_items(items@) + seq![
            (Style::Punctuation, seq![']']),
        ],
        Value::Table(entries) => render_assignments(entries@) + render_sections(entries@, parent),
    }
}

/// The elements of an array, separated by commas.
pub open spec fn render_items(items: Seq<Value>) -> Seq<(Style, Seq<char>)>
    decreases items,
{
    if items.len() == 0 {
        Seq::empty()
    } else if items.len() == 1 {
        render_spec(items[0], None)
    } else {
        render_items(items.subrange(0, items.len() - 1)) + seq![
            (Style::Punctuation, seq![',']),
            (Style::Plain, seq![' ']),
        ] + render_spec(items[items.len() - 1], None)
    }
}

/// The `key = value` lines of a table's entries that are not tables.
pub open spec fn render_assignments(entries: Seq<(String, Value)>) -> Seq<(Style, Seq<char>)>
    decreases entries,
{
    if entries.len() == 0 {
        Seq::empty()
    } else {
        let e = entries[entries.len() - 1];
        render_assignments(entries.subrange(0, entries.len() - 1)) + if e.1 is Table {
            Seq::empty()
        } else {
            seq![(Style::KeyName, e.0@), (Style::Plain, seq![' ', '=', ' '])] + render_spec(e.1, None)
                + seq![(Style::Plain, seq!['\n'])]
        }
    }
}

/// The sections of a table's entries that are tables.
pub open spec fn render_sections(entries: Seq<(String, Value)>, parent: Option<Seq<char>>) -> Seq<
    (Style, Seq<char>),
>
    decreases entries,
{
    if entries.len() == 0 {
        Seq::empty()
    } else {
        let e = entries[entries.len() - 1];
        render_sections(entries.subrange(0, entries.len() - 1), parent) + match e.1 {
            Value::Table(sub) => {
                let name = qualify(parent, e.0@);
                (if has_direct(sub@) {
                    header(name)
                } else {
                    Seq::empty()
                }) + render_spec(e.1, Some(name))
            },
            _ => Seq::empty(),
        }
    }
}

} // verus!

verus! {

pub open spec fn opt_view(p: Option<&String>) -> Option<Seq<char>> {
    match p {
        Some(s) => Some(s@),
        None => None,
    }
}

fn emit(out: &mut Vec<Piece>, style: Style, text: String)
    ensures
        pieces_view(final(out)@) == pieces_view(old(out)@).push((style, text@)),
{
    let ghost o = out@;
    out.push(Piece { style, text });
    assert(pieces_view(out@) =~= pieces_view(o).push((style, text@)));
}

fn has_direct_entry(entries: &Vec<(String, Value)>) -> (r: bool)
    ensures
        r == has_direct(entries@),
{
    let mut i: usize = 0;
    while i < entries.len()
        invariant
            i <= entries@.len(),
            forall|j: int| 0 <= j < i ==> #[trigger] entries@[j].1 is Table,
        decreases entries@.len() - i,
    {
        match &entries[i].1 {
            Value::Table(_) => {},
            _ => {
                return true;
            },
        }
        i = i + 1;
    }
    false
}

fn qualified_name(parent: Option<&String>, key: &String) -> (r: String)
    ensures
        r@ == qualify(opt_view(parent), key@),
{
    match parent {
        Some(p) => {
            proof { reveal_strlit("."); }
            let r = p.clone().concat(".").concat(key.as_str());
            assert(r@ =~= p@ + seq!['.'] + key@);
            r
        },
        None => key.clone(),
    }
}

/// Appends the pieces that show `v` to `out`.
pub fn render_into(v: &Value, parent: Option<&String>, out: &mut Vec<Piece>)
    ensures
        pieces_view(final(out)@) == pieces_view(old(out)@) + render_spec(*v, opt_view(parent)),
    decreases v, 1nat,
{
    let ghost o = pieces_view(out@);
    match v {
        Value::String(s) => {
            proof { reveal_strlit("\""); }
            proof { reveal_strlit("\""); }
            let t = String::from_str("\"");
            assert(t@ =~= seq!['"']);
            emit(out, Style::StringLit, t);
            emit(out, Style::StringLit, s.clone());
            proof { reveal_strlit("\""); }
            let t = String::from_str("\"");
            assert(t@ =~= seq!['"']);
            emit(out, Style::StringLit, t);
            assert(pieces_view(out@) =~= o + render_spec(*v, opt_view(parent)));
        },
        Value::Integer(i) => {
            emit(out, Style::Number, decimal_text(*i));
            assert(pieces_view(out@) =~= o + render_spec(*v, opt_view(parent)));
        },
        Value::Float(t) => {
            emit(out, Style::Number, t.clone());
            assert(pieces_view(out@) =~= o + render_spec(*v, opt_view(parent)));
        },
        Value::Boolean(b) => {
            proof {
                reveal_strlit("true");
                reveal_strlit("false");
            }
            let t = if *b { String::from_str("true") } else { String::from_str("false") };
            assert(t@ =~= bool_text(*b));
            emit(out, Style::Boolean, t);
            assert(pieces_view(out@) =~= o + render_spec(*v, opt_view(parent)));
        },
        Value::Datetime(t) => {
            emit(out, Style::Timestamp, t.clone());
            assert(pieces_view(out@) =~= o + render_spec(*v, opt_view(parent)));
        },
        Value::Array(items) => {
            proof {
                reveal_strlit("[");
                reveal_strlit("]");
                reveal_strlit(",");
                reveal_strlit(" ");
            }
            proof { reveal_strlit("["); }
            let t = String::from_str("[");
            assert(t@ =~= seq!['[']);
            emit(out, Style::Punctuation, t);
            let ghost start = pieces_view(out@);
            assert(start == o + seq![(Style::Punctuation, seq!['['])]);
            assert(items@.subrange(0, 0) =~= Seq::<Value>::empty());
            assert(start =~= start + render_items(items@.subrange(0, 0)));
            let mut i: usize = 0;
            while i < items.len()
                invariant
                    *v == Value::Array(*items),
                    i <= items@.len(),
                    pieces_view(out@) == start + render_items(items@.subrange(0, i as int)),
                decreases items@.len() - i,
            {
                let ghost before = pieces_view(out@);
                let ghost pre = items@.subrange(0, i + 1);
                assert(pre.subrange(0, i as int) =~= items@.subrange(0, i as int));
                assert(pre[i as int] == items@[i as int]);
                if i > 0 {
                    proof { reveal_strlit(","); }
                    let t = String::from_str(",");
                    assert(t@ =~= seq![',']);
                    emit(out, Style::Punctuation, t);
                    proof { reveal_strlit(" "); }
                    let t = String::from_str(" ");
                    assert(t@ =~= seq![' ']);
                    emit(out, Style::Plain, t);
                }
                let ghost mid = pieces_view(out@);
                assert(decreases_to!(*items => items@)) by {
                    broadcast use vstd::std_specs::vec::group_vec_axioms;
                }
                assert(decreases_to!(*v => (*v)->Array_0));
                assert(decreases_to!(items@ => items@[i as int]));
                assert(decreases_to!(*v => items@[i as int]));
                render_into(&items[i], None, out);
                if i > 0 {
                    assert(pieces_view(out@) =~= before + seq![
                        (Style::Punctuation, seq![',']),
                        (Style::Plain, seq![' ']),
                    ] + render_spec(items@[i as int], None));
                } else {
                    assert(pieces_view(out@) =~= before + render_spec(items@[i as int], None));
                }
                i = i + 1;
            }
            assert(items@.subrange(0, items@.len() as int) =~= items@);
            proof { reveal_strlit("]"); }
            let t = String::from_str("]");
            assert(t@ =~= seq![']']);
            emit(out, Style::Punctuation, t);
            assert(pieces_view(out@) =~= o + render_spec(*v, opt_view(parent)));
        },
        Value::Table(entries) => {
            render_table(v, entries, parent, out);
        },
    }
}

/// Appends the pieces that show the table `v`, whose entries are `entries`:
/// first its assignments, then its sections.
fn render_table(v: &Value, entries: &Vec<(String, Value)>, parent: Option<&String>, out: &mut Vec<Piece>)
    requires
        *v == Value::Table(*entries),
    ensures
        pieces_view(final(out)@) == pieces_view(old(out)@) + render_spec(*v, opt_view(parent)),
    decreases v, 0nat,
{
    proof {
        reveal_strlit(" = ");
        reveal_strlit("\n");
        reveal_strlit("[");
        reveal_strlit("]");
    }
    let ghost o = pieces_view(out@);
    let ghost par = opt_view(parent);
    assert(entries@.subrange(0, 0) =~= Seq::<(String, Value)>::empty());
    assert(o =~= o + render_assignments(entries@.subrange(0, 0)));
    let mut i: usize = 0;
    while i < entries.len()
        invariant
            *v == Value::Table(*entries),
            i <= entries@.len(),
            pieces_view(out@) == o + render_assignments(entries@.subrange(0, i as int)),
        decreases entries@.len() - i,
    {
        let ghost before = pieces_view(out@);
        let ghost pre = entries@.subrange(0, i + 1);
        assert(pre.subrange(0, i as int) =~= entries@.subrange(0, i as int));
        assert(pre[i as int] == entries@[i as int]);
        match &entries[i].1 {
            Value::Table(_) => {
                assert(pieces_view(out@) =~= o + render_assignments(pre));
            },
            _ => {
                emit(out, Style::KeyName, entries[i].0.clone());
                proof { reveal_strlit(" = "); }
                let t = String::from_str(" = ");
                assert(t@ =~= seq![' ', '=', ' ']);
                emit(out, Style::Plain, t);
                assert(decreases_to!(*entries => entries@)) by {
                    broadcast use vstd::std_specs::vec::group_vec_axioms;
                }
                assert(decreases_to!(*v => (*v)->Table_0));
                assert(decreases_to!(entries@ => entries@[i as int]));
                assert(decreases_to!(entries@[i as int] => entries@[i as int].1));
                assert(decreases_to!(*v => entries@[i as int].1));
                render_into(&entries[i].1, None, out);
                proof { reveal_strlit("\n"); }
                let t = String::from_str("\n");
                assert(t@ =~= seq!['\n']);
                emit(out, Style::Plain, t);
                assert(pieces_view(out@) =~= before + (seq![
                    (Style::KeyName, entries@[i as int].0@),
                    (Style::Plain, seq![' ', '=', ' ']),
                ] + render_spec(entries@[i as int].1, None) + seq![(Style::Plain, seq!['\n'])]));
            },
        }
        i = i + 1;
    }
    assert(entries@.subrange(0, entries@.len() as int) =~= entries@);
    let ghost mid = pieces_view(out@);
    assert(mid =~= mid + render_sections(entries@.subrange(0, 0), par));
    let mut i: usize = 0;
    while i < entries.len()
        invariant
            *v == Value::Table(*entries),
            par == opt_view(parent),
            i <= entries@.len(),
            pieces_view(out@) == mid + render_sections(entries@.subrange(0, i as int), par),
        decreases entries@.len() - i,
    {
        let ghost before = pieces_view(out@);
        let ghost pre = entries@.subrange(0, i + 1);
        assert(pre.subrange(0, i as int) =~= entries@.subrange(0, i as int));
        assert(pre[i as int] == entries@[i as int]);
        match &entries[i].1 {
            Value::Table(sub) => {
                let name = qualified_name(parent, &entries[i].0);
                let direct = has_direct_entry(sub);
                if direct {
                    proof { reveal_strlit("\n"); }
                    let t = String::from_str("\n");
                    assert(t@ =~= seq!['\n']);
                    emit(out, Style::Plain, t);
                    proof { reveal_strlit("["); }
                    let t = String::from_str("[");
                    assert(t@ =~= seq!['[']);
                    emit(out, Style::Punctuation, t);
                    emit(out, Style::SectionHeader, name.clone());
                    proof { reveal_strlit("]"); }
                    let t = String::from_str("]");
                    assert(t@ =~= seq![']']);
                    emit(out, Style::Punctuation, t);
                    proof { reveal_strlit("\n"); }
                    let t = String::from_str("\n");
                    assert(t@ =~= seq!['\n']);
                    emit(out, Style::Plain, t);
                }
                let ghost with_header = pieces_view(out@);
                assert(with_header =~= before + (if direct {
                    header(name@)
                } else {
                    Seq::empty()
                }));
                assert(decreases_to!(*entries => entries@)) by {
                    broadcast use vstd::std_specs::vec::group_vec_axioms;
                }
                assert(decreases_to!(*v => (*v)->Table_0));
                assert(decreases_to!(entries@ => entries@[i as int]));
                assert(decreases_to!(entries@[i as int] => entries@[i as int].1));
                assert(decreases_to!(*v => entries@[i as int].1));
                render_into(&entries[i].1, Some(&name), out);
                assert(pieces_view(out@) =~= mid + render_sections(pre, par));
            },
            _ => {
                assert(pieces_view(out@) =~= mid + render_sections(pre, par));
            },
        }
        i = i + 1;
    }
    assert(pieces_view(out@) =~= o + render_spec(*v, par));
}

} // verus!

verus! {

/// The text of all pieces, one after the other, without any styling.
pub open spec fn plain_text(ps: Seq<(Style, Seq<char>)>) -> Seq<char>
    decreases ps.len(),
{
    if ps.len() == 0 {
        Seq::empty()
    } else {
        plain_text(ps.drop_last()) + ps.last().1
    }
}

/// Strings joined one after the other.
pub open spec fn concat_all(outs: Seq<Seq<char>>) -> Seq<char>
    decreases outs.len(),
{
    if outs.len() == 0 {
        Seq::empty()
    } else {
        concat_all(outs.drop_last()) + outs.last()
    }
}

/// `outs[i]` is how the piece `ps[i]` is shown, for every `i`.
pub open spec fn shows_all(ps: Seq<(Style, Seq<char>)>, enabled: bool, outs: Seq<Seq<char>>) -> bool {
    &&& outs.len() == ps.len()
    &&& forall|i: int| 0 <= i < ps.len() ==> shown(ps[i].0, enabled, ps[i].1, #[trigger] outs[i])
}

/// `r` is the pieces `ps` shown one after the other.
pub open spec fn shows_text(ps: Seq<(Style, Seq<char>)>, enabled: bool, r: Seq<char>) -> bool {
    &&& exists|outs: Seq<Seq<char>>| shows_all(ps, enabled, outs) && r == concat_all(outs)
    &&& !enabled ==> r == plain_text(ps)
}

/// Shows each piece in its style and joins the results.
pub fn paint(ps: &Vec<Piece>, color_enabled: bool) -> (r: String)
    ensures
        shows_text(pieces_view(ps@), color_enabled, r@),
{
    let ghost pv = pieces_view(ps@);
    let mut r = String::from_str("");
    proof { reveal_strlit(""); }
    let ghost mut outs: Seq<Seq<char>> = Seq::empty();
    assert(r@ =~= Seq::<char>::empty());
    let mut i: usize = 0;
    while i < ps.len()
        invariant
            pv == pieces_view(ps@),
            i <= ps@.len(),
            shows_all(pv.subrange(0, i as int), color_enabled, outs),
            r@ == concat_all(outs),
            !color_enabled ==> r@ == plain_text(pv.subrange(0, i as int)),
        decreases ps@.len() - i,
    {
        let s = annotate(ps[i].text.as_str(), ps[i].style, color_enabled);
        let ghost pre = pv.subrange(0, i + 1);
        assert(pre.drop_last() =~= pv.subrange(0, i as int));
        assert(pre.last() == pv[i as int]);
        r.append(s.as_str());
        proof {
            let old_outs = outs;
            outs = outs.push(s@);
            assert(outs.drop_last() =~= old_outs);
            assert forall|j: int| 0 <= j < pre.len() implies shown(
                pre[j].0,
                color_enabled,
                pre[j].1,
                #[trigger] outs[j],
            ) by {
                if j < i {
                    assert(pre[j] == pv.subrange(0, i as int)[j]);
                }
            }
        }
        i = i + 1;
    }
    assert(pv.subrange(0, ps@.len() as int) =~= pv);
    r
}

/// Shows a value as text: `render_spec`'s pieces, each in its style.
pub fn render(value: &Value, parent: Option<&String>, color_enabled: bool) -> (r: String)
    ensures
        shows_text(render_spec(*value, opt_view(parent)), color_enabled, r@),
{
    let mut out: Vec<Piece> = Vec::new();
    assert(pieces_view(out@) =~= Seq::<(Style, Seq<char>)>::empty());
    render_into(value, parent, &mut out);
    assert(pieces_view(out@) =~= render_spec(*value, opt_view(parent)));
    paint(&out, color_enabled)
}

} // verus!

verus! {

/// Rendering one value twice gives the same pieces, and so, with colors
/// off, the same text.
pub proof fn rendering_is_deterministic(v: Value, parent: Option<Seq<char>>, r1: Seq<char>, r2: Seq<char>)
    requires
        shows_text(render_spec(v, parent), false, r1),
        shows_text(render_spec(v, parent), false, r2),
    ensures
        r1 == r2,
{
}

/// A nested table gets a `[name]` header line exactly when it holds an
/// entry that is not a table; its contents, and so the headers of the
/// tables nested in it, follow either way.
pub proof fn header_only_for_direct_entries(key: String, sub: Vec<(String, Value)>, parent: Option<Seq<char>>)
    ensures
        render_sections(seq![(key, Value::Table(sub))], parent) == (if has_direct(sub@) {
            header(qualify(parent, key@))
        } else {
            Seq::empty()
        }) + render_spec(Value::Table(sub), Some(qualify(parent, key@))),
{
    let es = seq![(key, Value::Table(sub))];
    assert(es.subrange(0, 0) =~= Seq::<(String, Value)>::empty());
    assert(es[0] == (key, Value::Table(sub)));
    assert(render_sections(es.subrange(0, 0), parent) =~= Seq::empty());
    let name = qualify(parent, key@);
    let hd: Seq<(Style, Seq<char>)> = if has_direct(sub@) { header(name) } else { Seq::empty() };
    assert(Seq::<(Style, Seq<char>)>::empty() + (hd + render_spec(Value::Table(sub), Some(name)))
        =~= hd + render_spec(Value::Table(sub), Some(name)));
}

/// Text without its color markers: where `r` starts with the marker of the
/// style's color and ends with the reset marker, what lies between them.
pub open spec fn unmark(s: Style, r: Seq<char>) -> Seq<char> {
    match color_spec(s) {
        Some(c) => {
            let n = open_marker(c).len();
            if r.len() >= n + reset_marker().len() && r.subrange(0, n as int) == open_marker(c)
                && r.subrange(r.len() - reset_marker().len(), r.len() as int) == reset_marker() {
                r.subrange(n as int, r.len() - reset_marker().len())
            } else {
                r
            }
        },
        None => r,
    }
}

pub open spec fn unmark_all(ps: Seq<(Style, Seq<char>)>, outs: Seq<Seq<char>>) -> Seq<Seq<char>> {
    Seq::new(outs.len(), |i: int| unmark(ps[i].0, outs[i]))
}

/// Whether no piece holds the escape character that starts a marker.
pub open spec fn free_of_escapes(ps: Seq<(Style, Seq<char>)>) -> bool {
    forall|i: int, j: int| 0 <= i < ps.len() && 0 <= j < ps[i].1.len() ==> #[trigger] ps[i].1[j] != esc()
}

proof fn lemma_unmark_piece(s: Style, t: Seq<char>, r: Seq<char>)
    requires
        shown(s, true, t, r),
        forall|j: int| 0 <= j < t.len() ==> t[j] != esc(),
    ensures
        unmark(s, r) == t,
{
    if let Some(c) = color_spec(s) {
        let n = open_marker(c).len();
        if r == t {
            if r.len() >= n && r.subrange(0, n as int) == open_marker(c) {
                assert(r.subrange(0, n as int)[0] == esc());
            }
        } else {
            assert(!contains_reset(t)) by {
                if contains_reset(t) {
                    let i = choose|i: int| 0 <= i <= t.len() - 4 && #[trigger] t.subrange(i, i + 4) == reset_marker();
                    assert(t.subrange(i, i + 4)[0] == t[i]);
                }
            }
            assert(r == open_marker(c) + t + reset_marker());
            assert(r.subrange(0, n as int) =~= open_marker(c));
            assert(r.subrange(r.len() - 4, r.len() as int) =~= reset_marker());
            assert(r.subrange(n as int, r.len() - 4) =~= t);
        }
    }
}

/// Colors change nothing but the markers: where no piece holds an escape
/// character, the colored text of the pieces with each piece's markers
/// taken off is the plain text, byte for byte.
pub proof fn color_adds_only_markers(ps: Seq<(Style, Seq<char>)>, outs: Seq<Seq<char>>)
    requires
        shows_all(ps, true, outs),
        free_of_escapes(ps),
    ensures
        concat_all(unmark_all(ps, outs)) == plain_text(ps),
    decreases ps.len(),
{
    if ps.len() > 0 {
        let last = ps.len() - 1;
        assert forall|j: int| 0 <= j < ps[last].1.len() implies ps[last].1[j] != esc() by {
            assert(ps[last].1[j] != esc());
        }
        lemma_unmark_piece(ps[last].0, ps[last].1, outs[last]);
        let ps1 = ps.drop_last();
        let outs1 = outs.drop_last();
        assert forall|i: int, j: int| 0 <= i < ps1.len() && 0 <= j < ps1[i].1.len() implies #[trigger] ps1[i].1[j] != esc() by {
            assert(ps1[i] == ps[i]);
            assert(ps[i].1[j] != esc());
        }
        assert forall|i: int| 0 <= i < ps1.len() implies shown(ps1[i].0, true, ps1[i].1, #[trigger] outs1[i]) by {
            assert(ps1[i] == ps[i]);
            assert(shown(ps[i].0, true, ps[i].1, outs[i]));
        }
        color_adds_only_markers(ps1, outs1);
        assert(unmark_all(ps, outs).drop_last() =~= unmark_all(ps1, outs1));
    } else {
        assert(unmark_all(ps, outs) =~= Seq::<Seq<char>>::empty());
    }
}

} // verus!
