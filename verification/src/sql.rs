//! SQL literals for the statements the application builds: text in single
//! quotes with embedded quotes doubled, and `NULL` for absent values.

use vstd::prelude::*;
use crate::text::{chars_of, int_text, push_int, push_str, string_of};

verus! {

/// One character inside a quoted SQL string: a quote is doubled.
pub open spec fn escape_piece(c: char) -> Seq<char> {
    if c == '\'' { seq!['\'', '\''] } else { seq![c] }
}

/// Text with every single quote doubled.
pub open spec fn sql_escape_spec(s: Seq<char>) -> Seq<char>
    decreases s.len(),
{
    if s.len() == 0 {
        Seq::empty()
    } else {
        sql_escape_spec(s.drop_last()) + escape_piece(s.last())
    }
}

/// What SQL reads from the inside of a quoted string: a doubled quote is
/// one quote.
pub open spec fn sql_unescape(s: Seq<char>) -> Seq<char>
    decreases s.len(),
{
    if s.len() >= 2 && s[0] == '\'' && s[1] == '\'' {
        seq!['\''] + sql_unescape(s.skip(2))
    } else if s.len() == 0 {
        s
    } else {
        seq![s[0]] + sql_unescape(s.skip(1))
    }
}

/// `s.replace('\'', "''")`.
pub fn sql_escape(s: &str) -> (r: String)
    ensures
        r@ == sql_escape_spec(s@),
{
    let cs = chars_of(s);
    let mut out: Vec<char> = Vec::new();
    let mut i: usize = 0;
    while i < cs.len()
        invariant
            i <= cs.len(),
            out@ == sql_escape_spec(cs@.take(i as int)),
        decreases cs.len() - i,
    {
        assert(cs@.take(i + 1).drop_last() == cs@.take(i as int));
        if cs[i] == '\'' {
            out.push('\'');
            out.push('\'');
        } else {
            out.push(cs[i]);
        }
        i = i + 1;
    }
    assert(cs@.take(cs.len() as int) == cs@);
    string_of(&out)
}

/// A quoted SQL string literal.
pub open spec fn sql_quoted_spec(s: Seq<char>) -> Seq<char> {
    "'"@ + sql_escape_spec(s) + "'"@
}

pub fn sql_quoted(s: &str) -> (r: String)
    ensures
        r@ == sql_quoted_spec(s@),
{
    let e = sql_escape(s);
    let mut buf: Vec<char> = Vec::new();
    push_str(&mut buf, "'");
    push_str(&mut buf, e.as_str());
    push_str(&mut buf, "'");
    string_of(&buf)
}

pub open spec fn sql_opt_text_spec(o: Option<Seq<char>>) -> Seq<char> {
    match o {
        Some(s) => sql_quoted_spec(s),
        None => "NULL"@,
    }
}

/// A quoted literal, or `NULL`.
pub fn sql_opt_text(o: &Option<String>) -> (r: String)
    ensures
        r@ == sql_opt_text_spec(crate::manifest::opt_view(*o)),
{
    match o {
        Some(s) => sql_quoted(s.as_str()),
        None => "NULL".to_owned(),
    }
}

/// A quoted literal, or `NULL` for empty text.
pub fn sql_text_or_null(s: &str) -> (r: String)
    ensures
        r@ == (if s@.len() == 0 { "NULL"@ } else { sql_quoted_spec(s@) }),
{
    if s.is_empty() {
        "NULL".to_owned()
    } else {
        sql_quoted(s)
    }
}

/// An integer literal, or `NULL`.
pub fn sql_opt_int(o: Option<i64>) -> (r: String)
    ensures
        r@ == match o {
            Some(v) => int_text(v as int),
            None => "NULL"@,
        },
{
    match o {
        Some(v) => {
            let mut buf: Vec<char> = Vec::new();
            push_int(&mut buf, v);
            string_of(&buf)
        },
        None => "NULL".to_owned(),
    }
}

proof fn lemma_escape_front(s: Seq<char>)
    requires
        s.len() > 0,
    ensures
        sql_escape_spec(s) == escape_piece(s[0]) + sql_escape_spec(s.skip(1)),
    decreases s.len(),
{
    if s.len() > 1 {
        lemma_escape_front(s.drop_last());
        assert(s.drop_last().skip(1) == s.skip(1).drop_last());
        assert(s.skip(1).last() == s.last());
        assert(sql_escape_spec(s.skip(1)) == sql_escape_spec(s.skip(1).drop_last()) + escape_piece(
            s.skip(1).last(),
        ));
        assert(sql_escape_spec(s) =~= escape_piece(s[0]) + sql_escape_spec(s.skip(1)));
    } else {
        assert(s.skip(1).len() == 0);
        assert(s.drop_last().len() == 0);
        assert(sql_escape_spec(s.drop_last()) == Seq::<char>::empty());
        assert(sql_escape_spec(s.skip(1)) == Seq::<char>::empty());
        assert(sql_escape_spec(s) =~= escape_piece(s[0]) + sql_escape_spec(s.skip(1)));
    }
}

/// SQL reads back exactly the text that was escaped: quoting never lets
/// a value end its literal early.
pub proof fn law_sql_escape_round_trip(s: Seq<char>)
    ensures
        sql_unescape(sql_escape_spec(s)) == s,
    decreases s.len(),
{
    if s.len() > 0 {
        lemma_escape_front(s);
        law_sql_escape_round_trip(s.skip(1));
        let e = sql_escape_spec(s);
        let rest = sql_escape_spec(s.skip(1));
        if s[0] == '\'' {
            assert(e.skip(2) == rest);
        } else {
            assert(e.skip(1) == rest);
        }
        assert(s == seq![s[0]] + s.skip(1));
    }
}

} // verus!
