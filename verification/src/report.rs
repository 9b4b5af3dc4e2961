// report.rs — the interface to the judge: every detector's findings as
// plain records (file, line, rule, severity, message, structured data), and
// the shared violation type of the detectors that grade their own severity.
use vstd::prelude::*;

use crate::text::{chars_of, strings_view, first_after, lemma_sort_by_line_sorted, lines_sorted, sort_by_line, vec_eq};

verus! {

/// Hard: the machine's verdict is final (counts toward the exit status).
/// Advisory: a candidate for the judge.
#[derive(Clone, Copy, PartialEq, Eq, Debug, Structural)]
pub enum Severity {
    Hard,
    Advisory,
}

/// One violation: line, rule, severity and message.
pub struct Violation {
    pub line: usize,
    pub rule: &'static str,
    pub severity: Severity,
    pub msg: String,
}

/// A violation's model.
pub type VioV = (int, (Seq<char>, Severity, Seq<char>));

pub open spec fn vio_view(v: Violation) -> VioV {
    (v.line as int, (v.rule@, v.severity, v.msg@))
}

pub open spec fn vios_view(v: Seq<Violation>) -> Seq<VioV> {
    Seq::new(v.len(), |i: int| vio_view(v[i]))
}

pub proof fn lemma_vios_push(v: Seq<Violation>, x: Violation)
    ensures
        vios_view(v.push(x)) == vios_view(v).push(vio_view(x)),
{
    assert(vios_view(v.push(x)) =~= vios_view(v).push(vio_view(x)));
}

/// Every violation of `v` is advisory.
pub open spec fn all_advisory(v: Seq<VioV>) -> bool {
    forall|i: int| 0 <= i < v.len() ==> (#[trigger] v[i]).1.1 == Severity::Advisory
}

pub proof fn lemma_all_advisory_concat(a: Seq<VioV>, b: Seq<VioV>)
    requires
        all_advisory(a),
        all_advisory(b),
    ensures
        all_advisory(a + b),
{
    assert forall|i: int| 0 <= i < (a + b).len() implies (#[trigger] (a + b)[i]).1.1 == Severity::Advisory by {
        if i < a.len() {
            assert((a + b)[i] == a[i]);
        } else {
            assert((a + b)[i] == b[i - a.len()]);
        }
    }
}

pub proof fn lemma_all_advisory_sorted(v: Seq<VioV>)
    requires
        all_advisory(v),
    ensures
        all_advisory(sort_by_line(v)),
{
    crate::text::lemma_sort_by_line_from(v);
    assert forall|i: int| 0 <= i < sort_by_line(v).len() implies (#[trigger] sort_by_line(v)[i]).1.1
        == Severity::Advisory by {
        assert(v.contains(sort_by_line(v)[i]));
        let j = choose|j: int| 0 <= j < v.len() && v[j] == sort_by_line(v)[i];
        assert(v[j].1.1 == Severity::Advisory);
    }
}

pub open spec fn one(line: int, rule: Seq<char>, sev: Severity, msg: Seq<char>) -> Seq<VioV> {
    seq![(line, (rule, sev, msg))]
}

pub fn push_vio(out: &mut Vec<Violation>, line: usize, rule: &'static str, severity: Severity, msg: String)
    ensures
        vios_view(final(out)@) == vios_view(old(out)@) + one(line as int, rule@, severity, msg@),
{
    let ghost before = out@;
    out.push(Violation { line, rule, severity, msg });
    proof {
        lemma_vios_push(before, out@.last());
        assert(out@ == before.push(out@.last()));
    }
    assert(vios_view(out@) =~= vios_view(before) + one(line as int, rule@, severity, msg@));
}

fn first_after_exec(v: &Vec<Violation>, line: usize) -> (j: usize)
    ensures
        j == first_after(vios_view(v@), line as int, 0),
        j <= v.len(),
{
    let ghost g = vios_view(v@);
    let mut j: usize = 0;
    while j < v.len() && v[j].line <= line
        invariant
            j <= v.len(),
            g == vios_view(v@),
            first_after(g, line as int, 0) == first_after(g, line as int, j as int),
        decreases v.len() - j,
    {
        j = j + 1;
    }
    j
}

/// Stable sort by line (`sort_by_key(|x| x.line)`).
pub fn sort_violations(v: Vec<Violation>) -> (r: Vec<Violation>)
    ensures
        vios_view(r@) == sort_by_line(vios_view(v@)),
        lines_sorted(vios_view(r@)),
{
    proof {
        lemma_sort_by_line_sorted(vios_view(v@));
    }
    let ghost orig = vios_view(v@);
    let mut src = v;
    let mut out: Vec<Violation> = Vec::new();
    let ghost mut k: int = 0;
    assert(orig.take(0) =~= Seq::<VioV>::empty());
    assert(vios_view(out@) =~= Seq::<VioV>::empty());
    assert(vios_view(src@) =~= orig.subrange(0, orig.len() as int));
    while src.len() > 0
        invariant
            0 <= k <= orig.len(),
            src.len() == orig.len() - k,
            vios_view(src@) == orig.subrange(k, orig.len() as int),
            vios_view(out@) == sort_by_line(orig.take(k)),
        decreases src.len(),
    {
        let ghost s0 = src@;
        let ghost o0 = out@;
        let x = src.remove(0);
        assert(vio_view(x) == orig[k]) by {
            assert(vios_view(s0)[0] == vio_view(s0[0]));
        }
        assert(vios_view(src@) =~= orig.subrange(k + 1, orig.len() as int)) by {
            assert(src@ =~= s0.remove(0));
            assert(vios_view(s0) == orig.subrange(k, orig.len() as int));
            assert forall|i: int| 0 <= i < src@.len() implies #[trigger] vios_view(src@)[i] == orig[k + 1 + i] by {
                assert(src@[i] == s0[i + 1]);
                assert(vios_view(s0)[i + 1] == orig.subrange(k, orig.len() as int)[i + 1]);
            }
        }
        let pos = first_after_exec(&out, x.line);
        out.insert(pos, x);
        proof {
            assert(out@ =~= o0.insert(pos as int, x));
            assert(vios_view(out@) =~= vios_view(o0).insert(pos as int, vio_view(x)));
            assert(orig.take(k + 1).drop_last() =~= orig.take(k));
            assert(orig.take(k + 1).last() == orig[k]);
            k = k + 1;
        }
    }
    assert(orig.take(k) =~= orig);
    out
}


// ---------------------------------------------------------------------------
// Findings and the report.

/// Detector-specific structured data of a finding.
pub enum FindingData {
    /// A denied term and its suggested rewrite.
    Deny { word: String, suggestion: String },
    /// A code-mixed paragraph: kept latin tokens per Japanese characters, and its vocabulary.
    Codemix { tokens: usize, ja_chars: usize, vocab: Vec<String> },
    /// A verb calque.
    Calque { word: String },
    /// An out-of-dictionary compound and its components.
    Coinage { compound: String, components: Vec<String> },
}

/// One finding of one detector.
pub struct Finding {
    /// codemix | readability | coinage | ...
    pub detector: &'static str,
    pub rule: String,
    pub file: String,
    pub line: usize,
    /// "error" (hard, counts toward the exit status) | "advisory" (a candidate for the judge)
    pub severity: &'static str,
    pub message: String,
    pub data: Option<FindingData>,
}

/// The model of a finding's structured data.
pub enum DataV {
    Deny(Seq<char>, Seq<char>),
    Codemix(nat, nat, Seq<Seq<char>>),
    Calque(Seq<char>),
    Coinage(Seq<char>, Seq<Seq<char>>),
}

pub open spec fn data_view(d: Option<FindingData>) -> Option<DataV> {
    match d {
        None => None,
        Some(FindingData::Deny { word, suggestion }) => Some(DataV::Deny(word@, suggestion@)),
        Some(FindingData::Codemix { tokens, ja_chars, vocab }) => Some(
            DataV::Codemix(tokens as nat, ja_chars as nat, strings_view(vocab@)),
        ),
        Some(FindingData::Calque { word }) => Some(DataV::Calque(word@)),
        Some(FindingData::Coinage { compound, components }) => Some(
            DataV::Coinage(compound@, strings_view(components@)),
        ),
    }
}

/// The model of a finding: detector, rule, file, line, severity, message and data.
pub type FindingV = (Seq<char>, Seq<char>, Seq<char>, int, Seq<char>, Seq<char>, Option<DataV>);

pub open spec fn finding_view(f: Finding) -> FindingV {
    (f.detector@, f.rule@, f.file@, f.line as int, f.severity@, f.message@, data_view(f.data))
}

pub open spec fn findings_view(v: Seq<Finding>) -> Seq<FindingV> {
    Seq::new(v.len(), |i: int| finding_view(v[i]))
}

pub struct Summary {
    pub error: usize,
    pub advisory: usize,
}

pub struct Report {
    pub version: u32,
    pub findings: Vec<Finding>,
    pub summary: Summary,
}

/// The number of findings of severity "error".
pub open spec fn count_errors(v: Seq<FindingV>) -> nat
    decreases v.len(),
{
    if v.len() == 0 {
        0
    } else {
        count_errors(v.drop_last()) + if v.last().4 == "error"@ {
            1nat
        } else {
            0nat
        }
    }
}

pub proof fn lemma_count_errors_le(v: Seq<FindingV>)
    ensures
        count_errors(v) <= v.len(),
    decreases v.len(),
{
    if v.len() > 0 {
        lemma_count_errors_le(v.drop_last());
    }
}

/// Whether two strings are equal.
pub fn str_eq(a: &str, b: &str) -> (r: bool)
    ensures
        r == (a@ == b@),
{
    let x = chars_of(a);
    let y = chars_of(b);
    vec_eq(&x, &y)
}

impl Report {
    /// The report of `findings` (version 1), counting errors and advisories:
    /// every finding is one or the other.
    pub fn new(findings: Vec<Finding>) -> (r: Self)
        ensures
            r.version == 1,
            findings_view(r.findings@) == findings_view(findings@),
            r.summary.error == count_errors(findings_view(findings@)),
            r.summary.advisory == findings@.len() - count_errors(findings_view(findings@)),
            r.summary.error + r.summary.advisory == findings@.len(),
    {
        let ghost g = findings_view(findings@);
        let mut error: usize = 0;
        let mut k: usize = 0;
        assert(g.take(0) =~= Seq::<FindingV>::empty());
        while k < findings.len()
            invariant
                k <= findings.len(),
                g == findings_view(findings@),
                error == count_errors(g.take(k as int)),
                error <= k,
            decreases findings.len() - k,
        {
            proof {
                assert(g.take(k + 1).drop_last() =~= g.take(k as int));
            }
            if str_eq(findings[k].severity, "error") {
                error = error + 1;
            }
            k = k + 1;
        }
        assert(g.take(k as int) =~= g);
        let advisory = findings.len() - error;
        Report { version: 1, findings, summary: Summary { error, advisory } }
    }
}

} // verus!
