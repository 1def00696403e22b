//! The analysis of one line: the scan, run over the characters of the line.

use crate::body::Body;
use crate::body::BodyView;
use crate::residual::regroup;
use crate::scan::flush;
use crate::scan::scan;
use crate::scanner::Scanner;
use crate::shape::body_wf;
use crate::shape::lemma_analysis_wf;
use crate::shape::lemma_scan_wf;
use crate::shape::scan_wf;
use crate::width::lemma_columns_prefix;
use crate::width::lemma_columns_push;
use crate::width::str_width;
use crate::width::text_columns;
use vstd::prelude::*;
use vstd::string::StrSliceExecFns;

verus! {

/// What the analysis of a line yields: the memes of its words, and the
/// leftover text with the runs that touch joined.
pub open spec fn analysis(line: Seq<char>) -> BodyView {
    let end = flush(scan(line));
    BodyView { memes: end.memes, rest: regroup(end.rest) }
}

/// Analyses one line: finds the faces and the words that touch them, and
/// gathers the text that is left over.
pub fn parse_memes(s: &str) -> (body: Body)
    ensures
        body@ == analysis(s@),
        body_wf(body@),
{
    let total_chars: usize = s.unicode_len();
    let total_width: usize = str_width(s);
    let mut scanner = Scanner::new();
    for c in it: s.chars()
        invariant
            it.seq() == s@,
            total_chars == s@.len(),
            total_width == text_columns(s@),
            scanner.state() == scan(s@.take(it.index())),
    {
        let ghost n = it.index();
        proof {
            assert(s@.take(n + 1).drop_last() =~= s@.take(n));
            assert(s@.take(n + 1) =~= s@.take(n).push(c));
            lemma_columns_push(s@.take(n), c);
            lemma_columns_prefix(s@, n + 1);
            lemma_scan_wf(s@.take(n));
            reveal(scan_wf);
        }
        scanner = scanner.step(c);
    }
    proof {
        assert(s@.take(s@.len() as int) =~= s@);
        lemma_analysis_wf(s@);
    }
    scanner.finish()
}

} // verus!
