//! Parsing of a request path into a command invocation.
use vstd::prelude::*;
use crate::response::Failure;
use crate::text::{chars_of, string_of};

verus! {

/// The pieces of `p` between slashes, in order; an empty path is one empty piece.
pub open spec fn split_slash(p: Seq<char>) -> Seq<Seq<char>>
    decreases p.len(),
{
    if p.len() == 0 {
        seq![Seq::empty()]
    } else {
        let rest = split_slash(p.drop_last());
        if p.last() == '/' {
            rest.push(Seq::empty())
        } else {
            rest.update(rest.len() - 1, rest.last().push(p.last()))
        }
    }
}

pub open spec fn is_digit(c: char) -> bool {
    '0' <= c && c <= '9'
}

pub open spec fn all_digits(s: Seq<char>) -> bool {
    forall|i: int| 0 <= i < s.len() ==> is_digit(#[trigger] s[i])
}

/// The number that a string of decimal digits denotes.
pub open spec fn digits_value(s: Seq<char>) -> nat
    decreases s.len(),
{
    if s.len() == 0 {
        0
    } else {
        10 * digits_value(s.drop_last()) + ((s.last() as nat) - ('0' as nat)) as nat
    }
}

/// The text after an optional leading plus sign.
pub open spec fn unsigned_body(s: Seq<char>) -> Seq<char> {
    if s.len() > 0 && s[0] == '+' {
        s.drop_first()
    } else {
        s
    }
}

/// A non-negative integer as text: an optional `+`, then one or more decimal
/// digits whose value fits in 64 bits.
pub open spec fn unsigned_value(s: Seq<char>) -> Option<u64> {
    let body = unsigned_body(s);
    if body.len() > 0 && all_digits(body) && digits_value(body) <= u64::MAX {
        Some(digits_value(body) as u64)
    } else {
        None
    }
}

/// The database index, command name and arguments that a path denotes, or
/// `None` when it names no command.
///
/// A first piece that reads as a non-negative integer is always taken as the
/// database index; otherwise the index is 0.
pub open spec fn path_invocation(p: Seq<char>) -> Option<(u64, Seq<char>, Seq<Seq<char>>)> {
    let pieces = split_slash(p);
    let db: u64 = match unsigned_value(pieces[0]) {
        Some(n) => n,
        None => 0,
    };
    let rest = if unsigned_value(pieces[0]) is Some {
        pieces.drop_first()
    } else {
        pieces
    };
    if rest.len() == 0 || rest[0].len() == 0 {
        None
    } else {
        Some((db, rest[0], rest.drop_first()))
    }
}

/// One command to run against one logical database.
#[derive(Debug, Clone, PartialEq)]
pub struct Invocation {
    pub db_index: u64,
    pub command: String,
    pub args: Vec<String>,
}

impl Invocation {
    pub open spec fn args_view(&self) -> Seq<Seq<char>> {
        self.args@.map_values(|a: String| a@)
    }
}

proof fn lemma_split_nonempty(p: Seq<char>)
    ensures
        split_slash(p).len() >= 1,
    decreases p.len(),
{
    if p.len() > 0 {
        lemma_split_nonempty(p.drop_last());
    }
}

proof fn lemma_digits_prefix_le(s: Seq<char>, j: int)
    requires
        0 <= j <= s.len(),
        all_digits(s),
    ensures
        digits_value(s.subrange(0, j)) <= digits_value(s),
    decreases s.len() - j,
{
    if j < s.len() {
        lemma_digits_prefix_le(s, j + 1);
        let t = s.subrange(0, j + 1);
        assert(t.drop_last() =~= s.subrange(0, j));
        assert(is_digit(s[j]));
    } else {
        assert(s.subrange(0, j) =~= s);
    }
}

/// Splits the characters of a path at each slash.
fn split_pieces(c: &Vec<char>) -> (r: Vec<Vec<char>>)
    ensures
        r@.map_values(|v: Vec<char>| v@) == split_slash(c@),
{
    let mut pieces: Vec<Vec<char>> = Vec::new();
    let mut cur: Vec<char> = Vec::new();
    let mut i: usize = 0;
    assert(c@.subrange(0, 0) =~= Seq::<char>::empty());
    assert(pieces@.map_values(|v: Vec<char>| v@).push(cur@) =~= split_slash(Seq::empty()));
    while i < c.len()
        invariant
            i <= c@.len(),
            pieces@.map_values(|v: Vec<char>| v@).push(cur@) == split_slash(c@.subrange(0, i as int)),
        decreases c@.len() - i,
    {
        let ch = c[i];
        let ghost before = pieces@.map_values(|v: Vec<char>| v@).push(cur@);
        assert(c@.subrange(0, i + 1).drop_last() =~= c@.subrange(0, i as int));
        assert(c@.subrange(0, i + 1).last() == ch);
        if ch == '/' {
            pieces.push(cur);
            cur = Vec::new();
            assert(pieces@.map_values(|v: Vec<char>| v@).push(cur@) =~= before.push(Seq::empty()));
        } else {
            cur.push(ch);
            assert(pieces@.map_values(|v: Vec<char>| v@).push(cur@)
                =~= before.update(before.len() - 1, before.last().push(ch)));
        }
        i = i + 1;
    }
    assert(c@.subrange(0, c@.len() as int) =~= c@);
    pieces.push(cur);
    pieces
}

/// Reads a piece as a non-negative integer, as `u64`'s `from_str` does.
pub fn parse_unsigned(s: &Vec<char>) -> (r: Option<u64>)
    ensures
        r == unsigned_value(s@),
{
    let start: usize = if s.len() > 0 && s[0] == '+' { 1 } else { 0 };
    let ghost body = unsigned_body(s@);
    assert(body =~= s@.subrange(start as int, s@.len() as int));
    if start >= s.len() {
        return None;
    }
    let mut value: u64 = 0;
    let mut i: usize = start;
    while i < s.len()
        invariant
            start <= i <= s@.len(),
            body == s@.subrange(start as int, s@.len() as int),
            body == unsigned_body(s@),
            all_digits(s@.subrange(start as int, i as int)),
            value as nat == digits_value(s@.subrange(start as int, i as int)),
        decreases s@.len() - i,
    {
        let ch = s[i];
        let ghost next = s@.subrange(start as int, i + 1);
        assert(next.drop_last() =~= s@.subrange(start as int, i as int));
        assert(next.last() == ch);
        if !('0' <= ch && ch <= '9') {
            assert(body[i - start] == ch);
            assert(!is_digit(body[i - start]));

            return None;
        }
        let d: u64 = (ch as u32 - '0' as u32) as u64;
        assert(digits_value(next) == 10 * value + d);
        if value > (u64::MAX - d) / 10 {
            assert(10 * value + d > u64::MAX) by (nonlinear_arith)
                requires
                    value > (u64::MAX - d) / 10,
                    d <= 9,
            ;
            proof {
                if all_digits(body) {
                    assert(next =~= body.subrange(0, i + 1 - start));
                    lemma_digits_prefix_le(body, i + 1 - start);
                    assert(digits_value(body) > u64::MAX);
                }
            }
            return None;
        }
        value = value * 10 + d;
        i = i + 1;
        assert(all_digits(next));
    }
    Some(value)
}

/// Parses a path (the part after the leading slash) into a command invocation.
///
/// A first piece that reads as a non-negative integer is the database index and
/// is dropped; otherwise the index is 0. The next piece is the command name and
/// must not be empty; the rest are the arguments, in order.
pub fn parse_path(path: &str) -> (r: Result<Invocation, Failure>)
    ensures
        match r {
            Ok(inv) => path_invocation(path@) == Some(
                (inv.db_index, inv.command@, inv.args_view()),
            ),
            Err(f) => path_invocation(path@) is None && f is MalformedPath,
        },
{
    let c = chars_of(path);
    let pieces = split_pieces(&c);
    proof {
        lemma_split_nonempty(path@);
    }
    let ghost pv = pieces@.map_values(|v: Vec<char>| v@);
    assert(pv[0] == pieces@[0]@);
    let first = parse_unsigned(&pieces[0]);
    let (db, skip): (u64, usize) = match first {
        Some(n) => (n, 1),
        None => (0, 0),
    };
    let ghost rest = if first is Some { pv.drop_first() } else { pv };
    if skip >= pieces.len() || pieces[skip].len() == 0 {
        return Err(Failure::MalformedPath);
    }
    assert(rest[0] == pieces@[skip as int]@);
    let command = string_of(&pieces[skip]);
    let mut args: Vec<String> = Vec::new();
    let mut i: usize = skip + 1;
    while i < pieces.len()
        invariant
            skip + 1 <= i <= pieces@.len(),
            pv == pieces@.map_values(|v: Vec<char>| v@),
            args@.map_values(|a: String| a@) =~= pv.subrange(skip + 1, i as int),
        decreases pieces@.len() - i,
    {
        let a = string_of(&pieces[i]);
        assert(pv[i as int] == a@);
        let ghost old_args = args@;
        args.push(a);
        assert(args@.map_values(|a: String| a@) =~= old_args.map_values(|a: String| a@).push(a@));
        assert(pv.subrange(skip + 1, i + 1) =~= pv.subrange(skip + 1, i as int).push(pv[i as int]));
        i = i + 1;
    }
    let inv = Invocation { db_index: db, command, args };
    assert(rest.drop_first() =~= pv.subrange(skip + 1, pv.len() as int));
    Ok(inv)
}

} // verus!
