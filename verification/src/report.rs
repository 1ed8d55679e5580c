//! The report: the findings of one message, numbered for display, and the
//! whole pipeline from raw bytes to report.

use vstd::prelude::*;
use crate::mime::{parse_message, parseable, represents, MessagePart, ParseError};
use crate::signals::{all_findings, extract_findings, views, Category, Finding};

verus! {

/// One numbered line of the report.
#[derive(Debug)]
pub struct ReportEntry {
    pub number: usize,
    pub finding: Finding,
}

/// The outcome for one message: its tree and the numbered findings.
#[derive(Debug)]
pub struct Analysis {
    pub tree: MessagePart,
    pub entries: Vec<ReportEntry>,
}

/// The entries are the findings, unchanged and in order, numbered from 1.
pub open spec fn numbered(entries: Seq<ReportEntry>, findings: Seq<(Category, Seq<char>, Seq<char>)>) -> bool {
    entries.len() == findings.len() && forall|i: int|
        0 <= i < entries.len() ==> (#[trigger] entries[i]).number == i + 1 && entries[i].finding@
            == findings[i]
}

/// Numbers the findings 1..N, keeping order and values.
pub fn assemble(findings: &Vec<Finding>) -> (r: Vec<ReportEntry>)
    ensures
        numbered(r@, views(findings@)),
{
    let n: usize = findings.len();
    let mut out: Vec<ReportEntry> = Vec::new();
    let mut i: usize = 0;
    while i < n
        invariant
            i <= n,
            n == findings@.len(),
            numbered(out@, views(findings@).take(i as int)),
        decreases n - i,
    {
        let f = &findings[i];
        let copy = Finding { category: f.category, label: f.label.clone(), value: f.value.clone() };
        out.push(ReportEntry { number: i + 1, finding: copy });
        i += 1;
    }
    assert(views(findings@).take(n as int) =~= views(findings@));
    out
}

/// Builds the tree of a raw message, runs every pass over it and numbers
/// what they found. Fails exactly where the tree cannot be built.
pub fn analyze(raw: &[u8]) -> (r: Result<Analysis, ParseError>)
    ensures
        r.is_ok() == parseable(raw@),
        r matches Ok(a) ==> represents(a.tree, raw@) && numbered(a.entries@, all_findings(a.tree)),
        r matches Err(e) ==> e == ParseError::MalformedMessage,
{
    match parse_message(raw) {
        Ok(tree) => {
            let findings = extract_findings(&tree);
            let entries = assemble(&findings);
            Ok(Analysis { tree, entries })
        },
        Err(_) => Err(ParseError::MalformedMessage),
    }
}

} // verus!
