//! The counts a search reports, the exit code they decide, and the terminal lines for results.

use vstd::prelude::*;

use crate::outcome::{outcome_name, Outcome};
use crate::target::{label, label_text, LineRange};
use crate::text::{decimal, lemma_occurs, lemma_occurs_extend, occurs_in, push_char, push_decimal};

verus! {

broadcast use vstd::string::group_string_axioms;

/// What a search selected, evaluated, skipped and failed on.
#[derive(Clone, Copy, Debug, PartialEq, Eq, Structural)]
pub struct Summary {
    pub selected: usize,
    pub evaluated: usize,
    pub matches: usize,
    pub no_match: usize,
    pub uncertain: usize,
    pub skipped: usize,
    pub errors: usize,
    pub dry_run: bool,
}

/// The exit code: 2 for any error, else 3 for any uncertain file, else 0 for a match (or, in a dry run, for a
/// text file selected), else 1. The first row that applies wins.
pub open spec fn exit_code_of(s: Summary) -> u8 {
    if s.errors > 0 {
        2
    } else if s.uncertain > 0 {
        3
    } else if s.matches > 0 || (s.dry_run && s.selected > s.skipped) {
        0
    } else {
        1
    }
}

/// Every evaluated file has exactly one outcome.
pub open spec fn consistent(s: Summary) -> bool {
    s.evaluated == s.matches + s.no_match + s.uncertain
}

/// Room for one more count of each kind.
pub open spec fn can_count(s: Summary) -> bool {
    &&& s.evaluated < usize::MAX
    &&& s.matches < usize::MAX
    &&& s.no_match < usize::MAX
    &&& s.uncertain < usize::MAX
    &&& s.skipped < usize::MAX
    &&& s.errors < usize::MAX
}

impl Summary {
    /// An empty summary.
    pub fn new(dry_run: bool) -> (s: Summary)
        ensures
            s == (Summary {
                selected: 0,
                evaluated: 0,
                matches: 0,
                no_match: 0,
                uncertain: 0,
                skipped: 0,
                errors: 0,
                dry_run,
            }),
    {
        Summary {
            selected: 0,
            evaluated: 0,
            matches: 0,
            no_match: 0,
            uncertain: 0,
            skipped: 0,
            errors: 0,
            dry_run,
        }
    }

    pub fn exit_code(&self) -> (code: u8)
        ensures
            code == exit_code_of(*self),
    {
        if self.errors > 0 {
            2
        } else if self.uncertain > 0 {
            3
        } else if self.matches > 0 || (self.dry_run && self.selected > self.skipped) {
            0
        } else {
            1
        }
    }

    /// Whether each count can grow by one more.
    pub fn has_room(&self) -> (room: bool)
        ensures
            room == can_count(*self),
    {
        self.evaluated < usize::MAX && self.matches < usize::MAX && self.no_match < usize::MAX
            && self.uncertain < usize::MAX && self.skipped < usize::MAX && self.errors < usize::MAX
    }

    /// Counts one evaluated file and its outcome.
    pub fn record_result(&mut self, outcome: Outcome)
        requires
            can_count(*old(self)),
        ensures
            *final(self) == (match outcome {
                Outcome::Match => Summary {
                    evaluated: (old(self).evaluated + 1) as usize,
                    matches: (old(self).matches + 1) as usize,
                    ..*old(self)
                },
                Outcome::NoMatch => Summary {
                    evaluated: (old(self).evaluated + 1) as usize,
                    no_match: (old(self).no_match + 1) as usize,
                    ..*old(self)
                },
                Outcome::Uncertain => Summary {
                    evaluated: (old(self).evaluated + 1) as usize,
                    uncertain: (old(self).uncertain + 1) as usize,
                    ..*old(self)
                },
            }),
    {
        self.evaluated = self.evaluated + 1;
        match outcome {
            Outcome::Match => {
                self.matches = self.matches + 1;
            },
            Outcome::NoMatch => {
                self.no_match = self.no_match + 1;
            },
            Outcome::Uncertain => {
                self.uncertain = self.uncertain + 1;
            },
        }
    }

    /// Counts one skipped binary file.
    pub fn record_skipped(&mut self)
        requires
            old(self).skipped < usize::MAX,
        ensures
            *final(self) == (Summary { skipped: (old(self).skipped + 1) as usize, ..*old(self) }),
    {
        self.skipped = self.skipped + 1;
    }

    /// Counts one error.
    pub fn record_error(&mut self)
        requires
            old(self).errors < usize::MAX,
        ensures
            *final(self) == (Summary { errors: (old(self).errors + 1) as usize, ..*old(self) }),
    {
        self.errors = self.errors + 1;
    }

    /// The summary written to stderr when a search ends.
    pub fn line(&self) -> (text: String)
        ensures
            text@ == summary_line_of(*self),
    {
        let mut t = String::new();
        push_decimal(&mut t, self.selected);
        t.append(" selected · ");
        push_decimal(&mut t, self.evaluated);
        t.append(" evaluated · ");
        push_decimal(&mut t, self.matches);
        t.append(" match · ");
        push_decimal(&mut t, self.no_match);
        t.append(" no match · ");
        push_decimal(&mut t, self.uncertain);
        t.append(" uncertain · ");
        push_decimal(&mut t, self.skipped);
        t.append(" skipped · ");
        push_decimal(&mut t, self.errors);
        t.append(" errors");
        if self.dry_run {
            t.append(" (dry run)");
        }
        t
    }
}

pub open spec fn summary_line_of(s: Summary) -> Seq<char> {
    Seq::<char>::empty() + decimal(s.selected as nat) + " selected · "@ + decimal(s.evaluated as nat)
        + " evaluated · "@ + decimal(s.matches as nat) + " match · "@ + decimal(s.no_match as nat)
        + " no match · "@ + decimal(s.uncertain as nat) + " uncertain · "@ + decimal(s.skipped as nat)
        + " skipped · "@ + decimal(s.errors as nat) + " errors"@ + (if s.dry_run {
        " (dry run)"@
    } else {
        Seq::empty()
    })
}

/// The terminal line for a result: its location, a tab, and the outcome. Nonmatches print nothing.
pub fn result_line(path: &str, lines: Option<LineRange>, outcome: Outcome) -> (line: Option<String>)
    ensures
        outcome == Outcome::NoMatch ==> line is None,
        outcome != Outcome::NoMatch ==> (line matches Some(l) && l@ == label_text(path@, lines)
            + seq!['\t'] + outcome_name(outcome)),
{
    if outcome == Outcome::NoMatch {
        return None;
    }
    let mut l = label(path, lines);
    push_char(&mut l, '\t');
    l.append(outcome.name());
    Some(l)
}

/// The stderr line for an error: `ev-grep: `, the location and `: ` when there is one, then the message.
pub open spec fn error_line_of(path: Option<Seq<char>>, lines: Option<LineRange>, message: Seq<char>) -> Seq<
    char,
> {
    "ev-grep: "@ + (match path {
        Some(p) => label_text(p, lines) + ": "@,
        None => Seq::empty(),
    }) + message
}

pub fn error_line(path: Option<&str>, lines: Option<LineRange>, message: &str) -> (line: String)
    ensures
        line@ == error_line_of(
            match path {
                Some(p) => Some(p@),
                None => None,
            },
            lines,
            message@,
        ),
{
    let mut line = String::from_str("ev-grep: ");
    match path {
        Some(p) => {
            let location = label(p, lines);
            line.append(location.as_str());
            line.append(": ");
        },
        None => {},
    }
    line.append(message);
    line
}

/// Counting a result keeps every evaluated file counted under exactly one outcome, and never lowers the
/// exit code's severity: once an error is counted the code is 2, and an uncertain result makes it 3 or 2.
pub proof fn counts_stay_consistent(s: Summary, outcome: Outcome)
    requires
        consistent(s),
        can_count(s),
    ensures
        ({
            let t = match outcome {
                Outcome::Match => Summary {
                    evaluated: (s.evaluated + 1) as usize,
                    matches: (s.matches + 1) as usize,
                    ..s
                },
                Outcome::NoMatch => Summary {
                    evaluated: (s.evaluated + 1) as usize,
                    no_match: (s.no_match + 1) as usize,
                    ..s
                },
                Outcome::Uncertain => Summary {
                    evaluated: (s.evaluated + 1) as usize,
                    uncertain: (s.uncertain + 1) as usize,
                    ..s
                },
            };
            &&& consistent(t)
            &&& s.errors > 0 ==> exit_code_of(t) == 2
            &&& outcome == Outcome::Uncertain ==> exit_code_of(t) == 3 || exit_code_of(t) == 2
        }),
{
}

/// Errors take precedence: a summary with an error exits with 2 whatever else it counts; without errors, an
/// uncertain file exits with 3.
pub proof fn errors_take_precedence(s: Summary)
    ensures
        s.errors > 0 ==> exit_code_of(s) == 2,
        s.errors == 0 && s.uncertain > 0 ==> exit_code_of(s) == 3,
        exit_code_of(s) == 0 ==> s.errors == 0 && s.uncertain == 0,
{
}

/// The exit codes follow the documented table. Outside a dry run, a search with no match, no uncertain file and
/// no error exits with 1 however many files it selected, and 0 there means a match was counted; a match with no
/// error or uncertainty exits with 0; a dry run with no error exits with 0 exactly when a text file was
/// selected.
pub proof fn exit_code_table(s: Summary)
    ensures
        !s.dry_run && s.errors == 0 && s.uncertain == 0 && s.matches == 0 ==> exit_code_of(s) == 1,
        !s.dry_run && exit_code_of(s) == 0 ==> s.matches > 0,
        s.errors == 0 && s.uncertain == 0 && s.matches > 0 ==> exit_code_of(s) == 0,
        s.dry_run && s.errors == 0 && s.uncertain == 0 && s.matches == 0 ==> (exit_code_of(s) == 0
            <==> s.selected > s.skipped),
        exit_code_of(s) == 1 ==> s.errors == 0 && s.uncertain == 0 && s.matches == 0,
{
}

/// In the summary line each count stands right before its own label.
pub proof fn counts_sit_by_their_labels(s: Summary)
    ensures
        occurs_in(decimal(s.selected as nat) + " selected · "@, summary_line_of(s)),
        occurs_in(decimal(s.evaluated as nat) + " evaluated · "@, summary_line_of(s)),
        occurs_in(decimal(s.matches as nat) + " match · "@, summary_line_of(s)),
        occurs_in(decimal(s.no_match as nat) + " no match · "@, summary_line_of(s)),
        occurs_in(decimal(s.uncertain as nat) + " uncertain · "@, summary_line_of(s)),
        occurs_in(decimal(s.skipped as nat) + " skipped · "@, summary_line_of(s)),
        occurs_in(decimal(s.errors as nat) + " errors"@, summary_line_of(s)),
{
    let p1 = Seq::<char>::empty() + decimal(s.selected as nat);
    let p2 = p1 + " selected · "@;
    let p3 = p2 + decimal(s.evaluated as nat);
    let p4 = p3 + " evaluated · "@;
    let p5 = p4 + decimal(s.matches as nat);
    let p6 = p5 + " match · "@;
    let p7 = p6 + decimal(s.no_match as nat);
    let p8 = p7 + " no match · "@;
    let p9 = p8 + decimal(s.uncertain as nat);
    let p10 = p9 + " uncertain · "@;
    let p11 = p10 + decimal(s.skipped as nat);
    let p12 = p11 + " skipped · "@;
    let p13 = p12 + decimal(s.errors as nat);
    let p14 = p13 + " errors"@;
    let tail = if s.dry_run {
        " (dry run)"@
    } else {
        Seq::<char>::empty()
    };
    assert(summary_line_of(s) == p14 + tail);
    lemma_pair_in(Seq::<char>::empty(), decimal(s.selected as nat), " selected · "@);
    lemma_occurs_extend(decimal(s.selected as nat) + " selected · "@, p2, decimal(s.evaluated as nat));
    lemma_occurs_extend(decimal(s.selected as nat) + " selected · "@, p3, " evaluated · "@);
    lemma_occurs_extend(decimal(s.selected as nat) + " selected · "@, p4, decimal(s.matches as nat));
    lemma_occurs_extend(decimal(s.selected as nat) + " selected · "@, p5, " match · "@);
    lemma_occurs_extend(decimal(s.selected as nat) + " selected · "@, p6, decimal(s.no_match as nat));
    lemma_occurs_extend(decimal(s.selected as nat) + " selected · "@, p7, " no match · "@);
    lemma_occurs_extend(decimal(s.selected as nat) + " selected · "@, p8, decimal(s.uncertain as nat));
    lemma_occurs_extend(decimal(s.selected as nat) + " selected · "@, p9, " uncertain · "@);
    lemma_occurs_extend(decimal(s.selected as nat) + " selected · "@, p10, decimal(s.skipped as nat));
    lemma_occurs_extend(decimal(s.selected as nat) + " selected · "@, p11, " skipped · "@);
    lemma_occurs_extend(decimal(s.selected as nat) + " selected · "@, p12, decimal(s.errors as nat));
    lemma_occurs_extend(decimal(s.selected as nat) + " selected · "@, p13, " errors"@);
    lemma_occurs_extend(decimal(s.selected as nat) + " selected · "@, p14, tail);
    lemma_pair_in(p2, decimal(s.evaluated as nat), " evaluated · "@);
    lemma_occurs_extend(decimal(s.evaluated as nat) + " evaluated · "@, p4, decimal(s.matches as nat));
    lemma_occurs_extend(decimal(s.evaluated as nat) + " evaluated · "@, p5, " match · "@);
    lemma_occurs_extend(decimal(s.evaluated as nat) + " evaluated · "@, p6, decimal(s.no_match as nat));
    lemma_occurs_extend(decimal(s.evaluated as nat) + " evaluated · "@, p7, " no match · "@);
    lemma_occurs_extend(decimal(s.evaluated as nat) + " evaluated · "@, p8, decimal(s.uncertain as nat));
    lemma_occurs_extend(decimal(s.evaluated as nat) + " evaluated · "@, p9, " uncertain · "@);
    lemma_occurs_extend(decimal(s.evaluated as nat) + " evaluated · "@, p10, decimal(s.skipped as nat));
    lemma_occurs_extend(decimal(s.evaluated as nat) + " evaluated · "@, p11, " skipped · "@);
    lemma_occurs_extend(decimal(s.evaluated as nat) + " evaluated · "@, p12, decimal(s.errors as nat));
    lemma_occurs_extend(decimal(s.evaluated as nat) + " evaluated · "@, p13, " errors"@);
    lemma_occurs_extend(decimal(s.evaluated as nat) + " evaluated · "@, p14, tail);
    lemma_pair_in(p4, decimal(s.matches as nat), " match · "@);
    lemma_occurs_extend(decimal(s.matches as nat) + " match · "@, p6, decimal(s.no_match as nat));
    lemma_occurs_extend(decimal(s.matches as nat) + " match · "@, p7, " no match · "@);
    lemma_occurs_extend(decimal(s.matches as nat) + " match · "@, p8, decimal(s.uncertain as nat));
    lemma_occurs_extend(decimal(s.matches as nat) + " match · "@, p9, " uncertain · "@);
    lemma_occurs_extend(decimal(s.matches as nat) + " match · "@, p10, decimal(s.skipped as nat));
    lemma_occurs_extend(decimal(s.matches as nat) + " match · "@, p11, " skipped · "@);
    lemma_occurs_extend(decimal(s.matches as nat) + " match · "@, p12, decimal(s.errors as nat));
    lemma_occurs_extend(decimal(s.matches as nat) + " match · "@, p13, " errors"@);
    lemma_occurs_extend(decimal(s.matches as nat) + " match · "@, p14, tail);
    lemma_pair_in(p6, decimal(s.no_match as nat), " no match · "@);
    lemma_occurs_extend(decimal(s.no_match as nat) + " no match · "@, p8, decimal(s.uncertain as nat));
    lemma_occurs_extend(decimal(s.no_match as nat) + " no match · "@, p9, " uncertain · "@);
    lemma_occurs_extend(decimal(s.no_match as nat) + " no match · "@, p10, decimal(s.skipped as nat));
    lemma_occurs_extend(decimal(s.no_match as nat) + " no match · "@, p11, " skipped · "@);
    lemma_occurs_extend(decimal(s.no_match as nat) + " no match · "@, p12, decimal(s.errors as nat));
    lemma_occurs_extend(decimal(s.no_match as nat) + " no match · "@, p13, " errors"@);
    lemma_occurs_extend(decimal(s.no_match as nat) + " no match · "@, p14, tail);
    lemma_pair_in(p8, decimal(s.uncertain as nat), " uncertain · "@);
    lemma_occurs_extend(decimal(s.uncertain as nat) + " uncertain · "@, p10, decimal(s.skipped as nat));
    lemma_occurs_extend(decimal(s.uncertain as nat) + " uncertain · "@, p11, " skipped · "@);
    lemma_occurs_extend(decimal(s.uncertain as nat) + " uncertain · "@, p12, decimal(s.errors as nat));
    lemma_occurs_extend(decimal(s.uncertain as nat) + " uncertain · "@, p13, " errors"@);
    lemma_occurs_extend(decimal(s.uncertain as nat) + " uncertain · "@, p14, tail);
    lemma_pair_in(p10, decimal(s.skipped as nat), " skipped · "@);
    lemma_occurs_extend(decimal(s.skipped as nat) + " skipped · "@, p12, decimal(s.errors as nat));
    lemma_occurs_extend(decimal(s.skipped as nat) + " skipped · "@, p13, " errors"@);
    lemma_occurs_extend(decimal(s.skipped as nat) + " skipped · "@, p14, tail);
    lemma_pair_in(p12, decimal(s.errors as nat), " errors"@);
    lemma_occurs_extend(decimal(s.errors as nat) + " errors"@, p14, tail);
}

/// A count and its label, placed after anything, form a run of the whole.
proof fn lemma_pair_in(x: Seq<char>, count: Seq<char>, label: Seq<char>)
    ensures
        occurs_in(count + label, x + count + label),
{
    assert(x + count + label =~= x + (count + label) + Seq::<char>::empty());
    lemma_occurs(x, count + label, Seq::<char>::empty());
}

} // verus!
