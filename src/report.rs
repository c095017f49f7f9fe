use vstd::prelude::*;

use vstd::string::StringExecFns;

use crate::search::{line_views, select_matching, selection, Query};

verus! {

/// What a search reports besides its lines: that nothing matched, or how
/// many lines matched and whether the noun takes its plural form.
#[derive(PartialEq, Eq, Structural, Debug, Clone, Copy)]
pub enum Report {
    NoMatch,
    Matches { count: usize, plural: bool },
}

/// The character of a decimal digit.
pub open spec fn digit_char(d: nat) -> char {
    if d == 0 {
        '0'
    } else if d == 1 {
        '1'
    } else if d == 2 {
        '2'
    } else if d == 3 {
        '3'
    } else if d == 4 {
        '4'
    } else if d == 5 {
        '5'
    } else if d == 6 {
        '6'
    } else if d == 7 {
        '7'
    } else if d == 8 {
        '8'
    } else {
        '9'
    }
}

/// The decimal form of a number, without leading zeros.
pub open spec fn decimal(n: nat) -> Seq<char>
    decreases n,
{
    if n < 10 {
        seq![digit_char(n)]
    } else {
        decimal(n / 10).push(digit_char(n % 10))
    }
}

/// The report for a number of matching lines.
pub open spec fn report_of(count: nat) -> Report {
    if count == 0 {
        Report::NoMatch
    } else {
        Report::Matches { count: count as usize, plural: count != 1 }
    }
}

/// The text of a report.
pub open spec fn report_text(r: Report) -> Seq<char> {
    match r {
        Report::NoMatch => "NO COMMAND FOUND"@,
        Report::Matches { count, plural } => decimal(count as nat) + " MATCHING COMMAND"@ + (
        if plural {
            "S"@
        } else {
            Seq::<char>::empty()
        }),
    }
}

/// The line that heads a listing of the whole catalog.
pub fn list_header() -> (r: &'static str)
    ensures
        r@ == "AVAILABLE LINUX COMMANDS:"@,
{
    "AVAILABLE LINUX COMMANDS:"
}

/// The line that explains the root marker under a search's count.
pub fn root_legend() -> (r: &'static str)
    ensures
        r@ == "(*) MEANS THE COMMAND RUN BY ROOT USER"@,
{
    "(*) MEANS THE COMMAND RUN BY ROOT USER"
}

fn digit_text(d: usize) -> (r: &'static str)
    requires
        d < 10,
    ensures
        r@ == seq![digit_char(d as nat)],
{
    proof {
        reveal_strlit("0");
        reveal_strlit("1");
        reveal_strlit("2");
        reveal_strlit("3");
        reveal_strlit("4");
        reveal_strlit("5");
        reveal_strlit("6");
        reveal_strlit("7");
        reveal_strlit("8");
        reveal_strlit("9");
    }
    let r = if d == 0 {
        "0"
    } else if d == 1 {
        "1"
    } else if d == 2 {
        "2"
    } else if d == 3 {
        "3"
    } else if d == 4 {
        "4"
    } else if d == 5 {
        "5"
    } else if d == 6 {
        "6"
    } else if d == 7 {
        "7"
    } else if d == 8 {
        "8"
    } else {
        "9"
    };
    assert(r@ =~= seq![digit_char(d as nat)]);
    r
}

/// Appends the decimal form of `n` to `s`.
fn push_decimal(s: &mut String, n: usize)
    ensures
        final(s)@ == old(s)@ + decimal(n as nat),
    decreases n,
{
    if n >= 10 {
        push_decimal(s, n / 10);
    }
    s.append(digit_text(n % 10));
    proof {
        if n >= 10 {
            assert(old(s)@ + decimal((n / 10) as nat) + seq![digit_char((n % 10) as nat)] =~= old(
                s,
            )@ + decimal(n as nat));
        } else {
            assert(old(s)@ + seq![digit_char(n as nat)] =~= old(s)@ + decimal(n as nat));
        }
    }
}

impl Report {
    /// The report for `count` matching lines: no match for none, singular
    /// wording for exactly one, plural wording for more.
    pub fn for_count(count: usize) -> (r: Report)
        ensures
            r == report_of(count as nat),
            r == Report::NoMatch <==> count == 0,
            count == 1 ==> r == (Report::Matches { count: 1, plural: false }),
            count > 1 ==> r == (Report::Matches { count, plural: true }),
    {
        if count == 0 {
            Report::NoMatch
        } else {
            Report::Matches { count, plural: count != 1 }
        }
    }

    /// The line that states the report.
    pub fn message(&self) -> (r: String)
        ensures
            r@ == report_text(*self),
    {
        match self {
            Report::NoMatch => "NO COMMAND FOUND".to_owned(),
            Report::Matches { count, plural } => {
                let mut s = String::new();
                push_decimal(&mut s, *count);
                s.append(" MATCHING COMMAND");
                if *plural {
                    s.append("S");
                }
                assert(s@ =~= report_text(*self));
                s
            },
        }
    }
}

/// The count line's wording: the no-match line for none, the singular noun
/// for exactly one, the plural noun for more.
pub proof fn lemma_count_wording(count: nat)
    requires
        count <= usize::MAX,
    ensures
        count == 0 ==> report_text(report_of(count)) == "NO COMMAND FOUND"@,
        count == 1 ==> report_text(report_of(count)) == "1 MATCHING COMMAND"@,
        count > 1 ==> report_text(report_of(count)) == decimal(count) + " MATCHING COMMANDS"@,
{
    reveal_strlit(" MATCHING COMMAND");
    reveal_strlit(" MATCHING COMMANDS");
    reveal_strlit("1 MATCHING COMMAND");
    reveal_strlit("S");
    if count == 1 {
        assert(decimal(1) =~= seq!['1']);
        assert(report_text(report_of(count)) =~= "1 MATCHING COMMAND"@);
    } else if count > 1 {
        assert(report_text(report_of(count)) =~= decimal(count) + " MATCHING COMMANDS"@);
    }
}

/// The lines that listing the whole catalog prints: the header, then every
/// line of the catalog in order.
pub fn list_output(catalog: &Vec<String>) -> (r: Vec<String>)
    ensures
        line_views(r@) == seq!["AVAILABLE LINUX COMMANDS:"@] + line_views(catalog@),
{
    let mut out: Vec<String> = Vec::new();
    out.push(list_header().to_owned());
    let n = catalog.len();
    for i in 0..n
        invariant
            n == catalog.len(),
            line_views(out@) == seq!["AVAILABLE LINUX COMMANDS:"@] + line_views(catalog@).take(
                i as int,
            ),
    {
        let ghost before = out@;
        out.push(catalog[i].clone());
        assert(line_views(out@) =~= line_views(before).push(catalog@[i as int]@));
        assert(line_views(catalog@).take(i + 1) =~= line_views(catalog@).take(i as int).push(
            catalog@[i as int]@,
        ));
    }
    assert(line_views(catalog@).take(n as int) =~= line_views(catalog@));
    out
}

/// The lines that a search prints: the no-match line when nothing matched;
/// otherwise the count line, the root-marker legend, and the matching lines
/// in catalog order.
pub fn search_output(catalog: &Vec<String>, query: &Query) -> (r: Vec<String>)
    ensures
        ({
            let found = selection(line_views(catalog@), query.text@, query.case_sensitive);
            line_views(r@) == if found.len() == 0 {
                seq![report_text(Report::NoMatch)]
            } else {
                seq![
                    report_text(report_of(found.len())),
                    "(*) MEANS THE COMMAND RUN BY ROOT USER"@,
                ] + found
            }
        }),
{
    let found = select_matching(catalog, query);
    let report = Report::for_count(found.len());
    let mut out: Vec<String> = Vec::new();
    out.push(report.message());
    if found.len() == 0 {
        return out;
    }
    out.push(root_legend().to_owned());
    let n = found.len();
    for i in 0..n
        invariant
            n == found.len(),
            n > 0,
            line_views(out@) == seq![
                report_text(report_of(n as nat)),
                "(*) MEANS THE COMMAND RUN BY ROOT USER"@,
            ] + line_views(found@).take(i as int),
    {
        let ghost before = out@;
        out.push(found[i].clone());
        assert(line_views(out@) =~= line_views(before).push(found@[i as int]@));
        assert(line_views(found@).take(i + 1) =~= line_views(found@).take(i as int).push(
            found@[i as int]@,
        ));
    }
    assert(line_views(found@).take(n as int) =~= line_views(found@));
    assert(line_views(found@).len() == n);
    out
}

} // verus!
