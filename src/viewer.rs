use vstd::prelude::*;
use vstd::string::*;
use crate::value::Value;
use crate::path::{resolve, resolve_spec};
use crate::style::{Style, annotate, shown};
use crate::render::{render, render_spec, shows_text, shows_all, concat_all, plain_text};

verus! {

/// The ways a run can fail; each ends the process with status 1.
#[derive(Clone, Copy, PartialEq, Eq, Structural, Debug)]
pub enum Failure {
    /// The document could not be opened or read.
    OpenFailure,
    /// The document's text is not a valid document.
    ParseFailure,
    /// The query names no value of the document.
    QueryNotFound,
}

/// The value that a run shows: the whole document where no query, or an
/// empty one, is given; else what the query selects, if anything.
pub open spec fn selection(doc: Value, query: Option<Seq<char>>) -> Option<Value> {
    match query {
        Some(q) => if q.len() == 0 {
            Some(doc)
        } else {
            resolve_spec(doc, q)
        },
        None => Some(doc),
    }
}

/// A selected value is followed by a line end; the whole document is not.
pub open spec fn ends_line(query: Option<Seq<char>>) -> bool {
    query matches Some(q) && q.len() > 0
}

pub open spec fn opt_str(q: Option<&str>) -> Option<Seq<char>> {
    match q {
        Some(s) => Some(s@),
        None => None,
    }
}

/// `t` is the output for the value `v`: `v` rendered, followed by a line
/// end where a query selected it.
pub open spec fn shows_output(v: Value, query: Option<Seq<char>>, enabled: bool, t: Seq<char>) -> bool {
    if ends_line(query) {
        &&& t.len() > 0
        &&& t.last() == '\n'
        &&& shows_text(render_spec(v, None), enabled, t.drop_last())
    } else {
        shows_text(render_spec(v, None), enabled, t)
    }
}

/// The output of a run on a parsed document: the selected value rendered,
/// or `QueryNotFound` where the query selects nothing.
pub fn view(doc: &Value, query: Option<&str>, color_enabled: bool) -> (r: Result<String, Failure>)
    ensures
        r is Err <==> selection(*doc, opt_str(query)) is None,
        r matches Err(f) ==> f == Failure::QueryNotFound,
        r matches Ok(t) ==> shows_output(selection(*doc, opt_str(query))->0, opt_str(query), color_enabled, t@),
{
    match query {
        Some(q) => {
            if q.unicode_len() == 0 {
                Ok(render(doc, None, color_enabled))
            } else {
                match resolve(doc, q) {
                    Some(v) => {
                        let t = render(v, None, color_enabled);
                        proof { reveal_strlit("\n"); }
                        let ghost body = t@;
                        let t = t.concat("\n");
                        assert(t@.drop_last() =~= body);
                        Ok(t)
                    },
                    None => Err(Failure::QueryNotFound),
                }
            }
        },
        None => {
            Ok(render(doc, None, color_enabled))
        },
    }
}

/// The words of a failure's message around its subject.
pub open spec fn failure_words(f: Failure) -> (Seq<char>, Seq<char>) {
    match f {
        Failure::OpenFailure => (" Cannot open file '"@, "'"@),
        Failure::ParseFailure => (" Cannot parse file '"@, "'"@),
        Failure::QueryNotFound => (" Query '"@, "' not found"@),
    }
}

/// The message of a failure: the label `Error:`, then the words that say
/// what failed, with the offending path or query between quotes.
pub open spec fn failure_pieces(f: Failure, subject: Seq<char>) -> Seq<(Style, Seq<char>)> {
    seq![
        (Style::ErrorLabel, "Error:"@),
        (Style::Plain, failure_words(f).0),
        (Style::ErrorValue, subject),
        (Style::Plain, failure_words(f).1),
    ]
}

/// Writes the message that reports a failure about `subject`.
pub fn failure_message(f: Failure, subject: &str, color_enabled: bool) -> (r: String)
    ensures
        shows_text(failure_pieces(f, subject@), color_enabled, r@),
{
    let (before, after) = match f {
        Failure::OpenFailure => (" Cannot open file '", "'"),
        Failure::ParseFailure => (" Cannot parse file '", "'"),
        Failure::QueryNotFound => (" Query '", "' not found"),
    };
    let ghost ps = failure_pieces(f, subject@);
    let a = annotate("Error:", Style::ErrorLabel, color_enabled);
    let b = annotate(before, Style::Plain, color_enabled);
    let c = annotate(subject, Style::ErrorValue, color_enabled);
    let d = annotate(after, Style::Plain, color_enabled);
    let ghost outs = seq![a@, b@, c@, d@];
    let r = a.concat(b.as_str()).concat(c.as_str()).concat(d.as_str());
    proof {
        reveal_with_fuel(concat_all, 5);
        reveal_with_fuel(plain_text, 5);
        assert(shows_all(ps, color_enabled, outs));
        assert(outs.drop_last().drop_last().drop_last().drop_last() =~= Seq::<Seq<char>>::empty());
        assert(ps.drop_last().drop_last().drop_last().drop_last() =~= Seq::<(Style, Seq<char>)>::empty());
        assert(concat_all(outs) =~= r@) by {
            assert(outs.drop_last() =~= seq![a@, b@, c@]);
            assert(outs.drop_last().drop_last() =~= seq![a@, b@]);
            assert(outs.drop_last().drop_last().drop_last() =~= seq![a@]);
        }
        if !color_enabled {
            assert(ps.drop_last() =~= seq![ps[0], ps[1], ps[2]]);
            assert(ps.drop_last().drop_last() =~= seq![ps[0], ps[1]]);
            assert(ps.drop_last().drop_last().drop_last() =~= seq![ps[0]]);
            assert(plain_text(ps) =~= r@);
        }
    }
    r
}

} // verus!
