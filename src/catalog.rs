use vstd::prelude::*;

use vstd::string::{StrSliceExecFns, StringExecFns};

use crate::search::line_views;
use crate::text::chars_of;

verus! {

/// The pieces of a text between newline characters, in order: one more
/// piece than there are newlines.
pub open spec fn newline_pieces(s: Seq<char>) -> Seq<Seq<char>>
    decreases s.len(),
{
    if s.len() == 0 {
        seq![Seq::<char>::empty()]
    } else {
        let p = newline_pieces(s.drop_last());
        if s.last() == '\n' {
            p.push(Seq::<char>::empty())
        } else {
            p.update(p.len() - 1, p.last().push(s.last()))
        }
    }
}

/// A line without the carriage return that ended it, if one did.
pub open spec fn strip_cr(l: Seq<char>) -> Seq<char> {
    if l.len() > 0 && l.last() == '\r' {
        l.drop_last()
    } else {
        l
    }
}

/// The lines of a text: each piece that a newline ends, without a carriage
/// return before that newline, then the final unterminated piece unless it
/// is empty (a final newline adds no line).
pub open spec fn text_lines(s: Seq<char>) -> Seq<Seq<char>> {
    let p = newline_pieces(s);
    let ended = p.drop_last().map_values(|l: Seq<char>| strip_cr(l));
    if p.last().len() == 0 {
        ended
    } else {
        ended.push(p.last())
    }
}

proof fn lemma_pieces_nonempty(s: Seq<char>)
    ensures
        newline_pieces(s).len() >= 1,
    decreases s.len(),
{
    if s.len() > 0 {
        lemma_pieces_nonempty(s.drop_last());
    }
}

/// Splits a catalog text into its lines, in order.
pub fn split_lines(content: &str) -> (r: Vec<String>)
    ensures
        line_views(r@) == text_lines(content@),
{
    let cs = chars_of(content);
    let n = cs.len();
    let mut out: Vec<String> = Vec::new();
    let ghost mut done: Seq<Seq<char>> = Seq::empty();
    let mut start: usize = 0;
    proof {
        assert(content@.take(0) =~= Seq::<char>::empty());
        assert(content@.subrange(0, 0) =~= Seq::<char>::empty());
        assert(done.push(Seq::<char>::empty()) =~= seq![Seq::<char>::empty()]);
    }
    for i in 0..n
        invariant
            cs@ == content@,
            n == cs.len(),
            start <= i,
            newline_pieces(content@.take(i as int)) == done.push(
                content@.subrange(start as int, i as int),
            ),
            line_views(out@) == done.map_values(|l: Seq<char>| strip_cr(l)),
    {
        let ghost s = content@;
        proof {
            assert(s.take(i + 1).drop_last() =~= s.take(i as int));
            assert(s.take(i + 1).last() == cs@[i as int]);
        }
        if cs[i] == '\n' {
            let ghost piece = s.subrange(start as int, i as int);
            let end: usize = if i > start && cs[i - 1] == '\r' {
                i - 1
            } else {
                i
            };
            let line = content.substring_char(start, end).to_owned();
            assert(line@ == strip_cr(piece)) by {
                if i > start && cs@[i - 1] == '\r' {
                    assert(piece.drop_last() =~= s.subrange(start as int, end as int));
                } else {
                    assert(piece =~= s.subrange(start as int, end as int));
                }
            }
            let ghost before = out@;
            out.push(line);
            proof {
                assert(line_views(out@) =~= line_views(before).push(line@));
                assert(done.push(piece).map_values(|l: Seq<char>| strip_cr(l)) =~= done.map_values(
                    |l: Seq<char>| strip_cr(l),
                ).push(strip_cr(piece)));
                done = done.push(piece);
                assert(s.subrange(i + 1, i + 1) =~= Seq::<char>::empty());
            }
            start = i + 1;
        } else {
            proof {
                assert(s.subrange(start as int, i as int).push(cs@[i as int]) =~= s.subrange(
                    start as int,
                    i + 1,
                ));
            }
        }
    }
    let ghost s = content@;
    assert(s.take(n as int) =~= s);
    assert(newline_pieces(s).drop_last() =~= done);
    if start < n {
        let last = content.substring_char(start, n).to_owned();
        let ghost before = out@;
        out.push(last);
        assert(line_views(out@) =~= line_views(before).push(last@));
    }
    out
}

/// Why the catalog could not be loaded, with the cause's description.
#[derive(Debug)]
pub enum LoadError {
    /// The catalog file does not exist or cannot be opened.
    Open(String),
    /// The file was opened but its contents could not be read as text.
    Read(String),
}

/// The diagnostic printed on the error stream for a load failure: the error
/// banner line, then the kind of failure and its cause.
pub open spec fn diagnostic_text(e: LoadError) -> Seq<char> {
    "ERROR: \n"@ + match e {
        LoadError::Open(cause) => "Error opening file: "@ + cause@,
        LoadError::Read(cause) => "Failed to read the file: "@ + cause@,
    }
}

impl LoadError {
    pub fn diagnostic(&self) -> (r: String)
        ensures
            r@ == diagnostic_text(*self),
    {
        let mut s = "ERROR: \n".to_owned();
        match self {
            LoadError::Open(cause) => {
                s.append("Error opening file: ");
                s.append(cause.as_str());
            },
            LoadError::Read(cause) => {
                s.append("Failed to read the file: ");
                s.append(cause.as_str());
            },
        }
        assert(s@ =~= diagnostic_text(*self));
        s
    }
}

/// The directory that the catalog path starts from: the home directory when
/// it is known, the current directory `.` otherwise.
pub fn base_dir(home: Option<String>) -> (r: String)
    ensures
        match home {
            Some(h) => r@ == h@,
            None => r@ == "."@,
        },
{
    match home {
        Some(h) => h,
        None => ".".to_owned(),
    }
}

/// Loads a catalog from what reading its file gave: its lines when the text
/// was read, the same error otherwise.
pub fn load(read: Result<String, LoadError>) -> (r: Result<Vec<String>, LoadError>)
    ensures
        match read {
            Ok(text) => r matches Ok(lines) && line_views(lines@) == text_lines(text@),
            Err(e) => r == Err::<Vec<String>, LoadError>(e),
        },
{
    match read {
        Ok(text) => Ok(split_lines(text.as_str())),
        Err(e) => Err(e),
    }
}

} // verus!
