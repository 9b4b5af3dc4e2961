// check.rs — the `check` command apart from its I/O: the register named in
// the configuration, the exempt vocabulary, the order of the report, the
// rendering of each finding and of the summary, and the exit status.
use vstd::prelude::*;

use crate::deny::{lowercase, to_lowercase};
use crate::pipeline::Register;
use crate::report::{count_errors, finding_view, findings_view, Finding, FindingV};
use crate::text::{chars_of, dec, replace_all, replace_exec, seq_less, seq_lt, string_of, strings_view};

verus! {

// ---------------------------------------------------------------------------
// Configuration.

pub open spec fn ascii_lower_seq(s: Seq<char>) -> Seq<char> {
    Seq::new(s.len(), |i: int| crate::prose::ascii_lower(s[i]))
}

/// The register a configuration names (ASCII case ignored): `practice`, or
/// its former name `external`; `consume`; anything else is `Internal`.
pub open spec fn spec_register_named(name: Seq<char>) -> Register {
    let n = ascii_lower_seq(name);
    if n == "external"@ || n == "practice"@ {
        Register::Practice
    } else if n == "consume"@ {
        Register::Consume
    } else {
        Register::Internal
    }
}

/// The register a configuration names.
pub fn register_named(name: &str) -> (r: Register)
    ensures
        r == spec_register_named(name@),
{
    let s = chars_of(name);
    let mut low: Vec<char> = Vec::new();
    let mut k: usize = 0;
    while k < s.len()
        invariant
            k <= s.len(),
            low@ == ascii_lower_seq(s@).take(k as int),
        decreases s.len() - k,
    {
        low.push(crate::prose::lower_ascii(s[k]));
        assert(low@ =~= ascii_lower_seq(s@).take(k + 1));
        k = k + 1;
    }
    assert(ascii_lower_seq(s@).take(s.len() as int) =~= ascii_lower_seq(s@));
    let n = string_of(&low);
    if crate::report::str_eq(n.as_str(), "external") || crate::report::str_eq(n.as_str(), "practice") {
        Register::Practice
    } else if crate::report::str_eq(n.as_str(), "consume") {
        Register::Consume
    } else {
        Register::Internal
    }
}

/// The exempt vocabulary of codemix: the allowed words lowercased, then the
/// words of the registry files.
pub open spec fn spec_exempt(allow: Seq<Seq<char>>, vocab: Seq<Seq<char>>) -> Seq<Seq<char>> {
    Seq::new(allow.len(), |i: int| lowercase(allow[i])) + vocab
}

/// The exempt vocabulary of codemix.
pub fn exempt_words(allow: &Vec<String>, vocab: Vec<String>) -> (r: Vec<String>)
    ensures
        strings_view(r@) == spec_exempt(strings_view(allow@), strings_view(vocab@)),
{
    let mut out: Vec<String> = Vec::new();
    let mut k: usize = 0;
    while k < allow.len()
        invariant
            k <= allow.len(),
            strings_view(out@) == Seq::new(allow.len() as nat, |i: int| lowercase(allow@[i]@)).take(k as int),
        decreases allow.len() - k,
    {
        let ghost o0 = out@;
        let lw = to_lowercase(allow[k].as_str());
        out.push(lw);
        assert(strings_view(out@) =~= strings_view(o0).push(lowercase(allow@[k as int]@)));
        assert(strings_view(out@) =~= Seq::new(allow.len() as nat, |i: int| lowercase(allow@[i]@)).take(k + 1));
        k = k + 1;
    }
    assert(Seq::new(allow.len() as nat, |i: int| lowercase(allow@[i]@)).take(allow.len() as int) =~= Seq::new(
        allow.len() as nat,
        |i: int| lowercase(allow@[i]@),
    ));
    let ghost head = strings_view(out@);
    let mut src = vocab;
    let ghost orig = src@;
    let ghost mut j: int = 0;
    while src.len() > 0
        invariant
            0 <= j <= orig.len(),
            src@ == orig.subrange(j, orig.len() as int),
            strings_view(out@) == head + strings_view(orig).take(j),
        decreases src.len(),
    {
        let w = src.remove(0);
        assert(src@ =~= orig.subrange(j + 1, orig.len() as int));
        assert(w == orig[j]);
        let ghost o1 = out@;
        out.push(w);
        assert(strings_view(out@) =~= strings_view(o1).push(orig[j]@));
        assert(strings_view(out@) =~= head + strings_view(orig).take(j + 1));
        proof {
            j = j + 1;
        }
    }
    assert(strings_view(orig).take(j) =~= strings_view(orig));
    assert(Seq::new(allow.len() as nat, |i: int| lowercase(allow@[i]@)) =~= Seq::new(
        strings_view(allow@).len(),
        |i: int| lowercase(strings_view(allow@)[i]),
    ));
    out
}

// ---------------------------------------------------------------------------
// The order of the report: by file, then by line, stably.

/// `a` sorts no later than `b`: its file first, or the same file and a line not after.
pub open spec fn key_le(a: FindingV, b: FindingV) -> bool {
    seq_lt(a.2, b.2) || (a.2 == b.2 && a.3 <= b.3)
}

/// The first index `>= k` whose element sorts after `x`, or the length.
pub open spec fn first_later(v: Seq<FindingV>, x: FindingV, k: int) -> int
    decreases v.len() - k,
{
    if k < 0 || k >= v.len() {
        v.len() as int
    } else if !key_le(v[k], x) {
        k
    } else {
        first_later(v, x, k + 1)
    }
}

/// `v` stably sorted by file and line.
pub open spec fn sort_by_file_line(v: Seq<FindingV>) -> Seq<FindingV>
    decreases v.len(),
{
    if v.len() == 0 {
        Seq::empty()
    } else {
        let s = sort_by_file_line(v.drop_last());
        s.insert(first_later(s, v.last(), 0), v.last())
    }
}

pub open spec fn file_line_sorted(v: Seq<FindingV>) -> bool {
    forall|i: int, j: int| 0 <= i < j < v.len() ==> key_le(v[i], v[j])
}

proof fn lemma_first_later(v: Seq<FindingV>, x: FindingV, k: int)
    requires
        0 <= k <= v.len(),
    ensures
        k <= first_later(v, x, k) <= v.len(),
    decreases v.len() - k,
{
    if k < v.len() && key_le(v[k], x) {
        lemma_first_later(v, x, k + 1);
    }
}

proof fn lemma_key_le_trans(a: FindingV, b: FindingV, c: FindingV)
    requires
        key_le(a, b),
        key_le(b, c),
    ensures
        key_le(a, c),
{
    if seq_lt(a.2, b.2) && seq_lt(b.2, c.2) {
        crate::text::lemma_seq_lt_trans(a.2, b.2, c.2);
    }
}

proof fn lemma_key_le_total(a: FindingV, b: FindingV)
    ensures
        key_le(a, b) || key_le(b, a),
{
    crate::text::lemma_seq_lt_total(a.2, b.2);
}

proof fn lemma_insert_file_line(s: Seq<FindingV>, x: FindingV, k: int)
    requires
        file_line_sorted(s),
        0 <= k <= s.len(),
        forall|j: int| 0 <= j < k ==> key_le(s[j], x),
    ensures
        file_line_sorted(s.insert(first_later(s, x, k), x)),
    decreases s.len() - k,
{
    if k < s.len() && key_le(s[k], x) {
        lemma_insert_file_line(s, x, k + 1);
    } else {
        let t = s.insert(k, x);
        if k < s.len() {
            lemma_key_le_total(s[k], x);
        }
        assert forall|i: int, j: int| 0 <= i < j < t.len() implies key_le(t[i], t[j]) by {
            if j < k {
                assert(t[i] == s[i] && t[j] == s[j]);
            } else if j == k {
                assert(t[i] == s[i]);
            } else if i < k {
                assert(t[i] == s[i] && t[j] == s[j - 1]);
                assert(key_le(s[i], x));
                assert(key_le(x, s[k]));
                if j - 1 > k {
                    assert(key_le(s[k], s[j - 1]));
                    lemma_key_le_trans(x, s[k], s[j - 1]);
                }
                lemma_key_le_trans(s[i], x, s[j - 1]);
            } else if i == k {
                assert(t[j] == s[j - 1]);
                if j - 1 > k {
                    assert(key_le(s[k], s[j - 1]));
                    lemma_key_le_trans(x, s[k], s[j - 1]);
                }
            } else {
                assert(t[i] == s[i - 1] && t[j] == s[j - 1]);
            }
        }
    }
}

/// Sorting by file and line yields an ordered report.
pub proof fn lemma_sort_by_file_line_sorted(v: Seq<FindingV>)
    ensures
        file_line_sorted(sort_by_file_line(v)),
    decreases v.len(),
{
    if v.len() > 0 {
        lemma_sort_by_file_line_sorted(v.drop_last());
        lemma_insert_file_line(sort_by_file_line(v.drop_last()), v.last(), 0);
    }
}

fn key_le_exec(a: &Finding, b: &Finding) -> (r: bool)
    ensures
        r == key_le(finding_view(*a), finding_view(*b)),
{
    let fa = chars_of(a.file.as_str());
    let fb = chars_of(b.file.as_str());
    seq_less(&fa, &fb) || (crate::text::vec_eq(&fa, &fb) && a.line <= b.line)
}

fn first_later_exec(v: &Vec<Finding>, x: &Finding) -> (j: usize)
    ensures
        j == first_later(findings_view(v@), finding_view(*x), 0),
        j <= v.len(),
{
    let ghost g = findings_view(v@);
    let mut j: usize = 0;
    while j < v.len() && key_le_exec(&v[j], x)
        invariant
            j <= v.len(),
            g == findings_view(v@),
            first_later(g, finding_view(*x), 0) == first_later(g, finding_view(*x), j as int),
        decreases v.len() - j,
    {
        j = j + 1;
    }
    j
}

/// The findings stably sorted by file, then line (the order of the report).
pub fn sort_findings(v: Vec<Finding>) -> (r: Vec<Finding>)
    ensures
        findings_view(r@) == sort_by_file_line(findings_view(v@)),
        file_line_sorted(findings_view(r@)),
{
    proof {
        lemma_sort_by_file_line_sorted(findings_view(v@));
    }
    let ghost orig = findings_view(v@);
    let mut src = v;
    let mut out: Vec<Finding> = Vec::new();
    let ghost mut k: int = 0;
    assert(orig.take(0) =~= Seq::<FindingV>::empty());
    assert(findings_view(out@) =~= Seq::<FindingV>::empty());
    assert(findings_view(src@) =~= orig.subrange(0, orig.len() as int));
    while src.len() > 0
        invariant
            0 <= k <= orig.len(),
            src.len() == orig.len() - k,
            findings_view(src@) == orig.subrange(k, orig.len() as int),
            findings_view(out@) == sort_by_file_line(orig.take(k)),
        decreases src.len(),
    {
        let ghost s0 = src@;
        let ghost o0 = out@;
        let x = src.remove(0);
        assert(finding_view(x) == orig[k]) by {
            assert(findings_view(s0)[0] == finding_view(s0[0]));
        }
        assert(findings_view(src@) =~= orig.subrange(k + 1, orig.len() as int)) by {
            assert(src@ =~= s0.remove(0));
            assert forall|i: int| 0 <= i < src@.len() implies #[trigger] findings_view(src@)[i] == orig[k + 1 + i] by {
                assert(src@[i] == s0[i + 1]);
                assert(findings_view(s0)[i + 1] == orig.subrange(k, orig.len() as int)[i + 1]);
            }
        }
        let pos = first_later_exec(&out, &x);
        out.insert(pos, x);
        proof {
            assert(out@ =~= o0.insert(pos as int, x));
            assert(findings_view(out@) =~= findings_view(o0).insert(pos as int, finding_view(x)));
            assert(orig.take(k + 1).drop_last() =~= orig.take(k));
            assert(orig.take(k + 1).last() == orig[k]);
            k = k + 1;
        }
    }
    assert(orig.take(k) =~= orig);
    out
}

// ---------------------------------------------------------------------------
// Rendering.

/// `file:line: [detector/rule·advisory] message` (the tag for advisories only).
pub open spec fn spec_render_text(f: FindingV) -> Seq<char> {
    f.2 + ":"@ + dec(f.3 as nat) + ": ["@ + f.0 + "/"@ + f.1 + (if f.4 == "advisory"@ {
        "·advisory"@
    } else {
        Seq::empty()
    }) + "] "@ + f.5
}

/// A GitHub Actions workflow command: `::error` for errors, `::notice`
/// otherwise, with `%` escaped in the message.
pub open spec fn spec_render_github(f: FindingV) -> Seq<char> {
    "::"@ + (if f.4 == "error"@ {
        "error"@
    } else {
        "notice"@
    }) + " file="@ + f.2 + ",line="@ + dec(f.3 as nat) + ",title=correo "@ + f.0 + "/"@ + f.1 + "::"@
        + replace_all(f.5, seq!['%'], seq!['%', '2', '5'])
}

/// One line of the text report.
pub fn render_text(f: &Finding) -> (r: String)
    ensures
        r@ == spec_render_text(finding_view(*f)),
{
    let mut s = String::new();
    s.append(f.file.as_str());
    s.append(":");
    crate::numfmt::push_dec_u128_str(&mut s, f.line as u128);
    s.append(": [");
    s.append(f.detector);
    s.append("/");
    s.append(f.rule.as_str());
    if crate::report::str_eq(f.severity, "advisory") {
        s.append("·advisory");
    }
    s.append("] ");
    s.append(f.message.as_str());
    assert(s@ =~= spec_render_text(finding_view(*f)));
    s
}

/// One workflow command of the GitHub report.
pub fn render_github(f: &Finding) -> (r: String)
    ensures
        r@ == spec_render_github(finding_view(*f)),
{
    let mut s = String::new();
    s.append("::");
    if crate::report::str_eq(f.severity, "error") {
        s.append("error");
    } else {
        s.append("notice");
    }
    s.append(" file=");
    s.append(f.file.as_str());
    s.append(",line=");
    crate::numfmt::push_dec_u128_str(&mut s, f.line as u128);
    s.append(",title=correo ");
    s.append(f.detector);
    s.append("/");
    s.append(f.rule.as_str());
    s.append("::");
    let m = chars_of(f.message.as_str());
    let pct = vec!['%'];
    let esc = vec!['%', '2', '5'];
    assert(pct@ =~= seq!['%']);
    assert(esc@ =~= seq!['%', '2', '5']);
    let e = replace_exec(&m, &pct, &esc);
    crate::text::push_vec_str(&mut s, &e);
    assert(s@ =~= spec_render_github(finding_view(*f)));
    s
}

/// The closing line of the text report: OK when there is nothing, otherwise
/// the error and advisory counts; then the number of files, the fixes made
/// and the configuration file read.
pub open spec fn spec_summary_line(
    n_findings: nat,
    errors: nat,
    advisories: nat,
    n_files: nat,
    fixed: nat,
    config: Option<Seq<char>>,
) -> Seq<char> {
    let fix_note = if fixed > 0 {
        "・fixed "@ + dec(fixed)
    } else {
        Seq::empty()
    };
    let cfg_note = match config {
        Some(p) => ", config "@ + p,
        None => Seq::empty(),
    };
    if n_findings == 0 {
        "correo check: OK ("@ + dec(n_files) + " files"@ + fix_note + cfg_note + ")"@
    } else {
        "correo check: error "@ + dec(errors) + " / advisory "@ + dec(advisories) + " ("@ + dec(n_files) + " files"@
            + fix_note + cfg_note + ")"@
    }
}

/// The closing line of the text report.
pub fn summary_line(
    n_findings: usize,
    errors: usize,
    advisories: usize,
    n_files: usize,
    fixed: usize,
    config: Option<&str>,
) -> (r: String)
    ensures
        r@ == spec_summary_line(
            n_findings as nat,
            errors as nat,
            advisories as nat,
            n_files as nat,
            fixed as nat,
            match config {
                Some(p) => Some(p@),
                None => None,
            },
        ),
{
    let mut s = String::new();
    if n_findings == 0 {
        s.append("correo check: OK (");
    } else {
        s.append("correo check: error ");
        crate::numfmt::push_dec_u128_str(&mut s, errors as u128);
        s.append(" / advisory ");
        crate::numfmt::push_dec_u128_str(&mut s, advisories as u128);
        s.append(" (");
    }
    crate::numfmt::push_dec_u128_str(&mut s, n_files as u128);
    s.append(" files");
    if fixed > 0 {
        s.append("・fixed ");
        crate::numfmt::push_dec_u128_str(&mut s, fixed as u128);
    }
    match config {
        Some(p) => {
            s.append(", config ");
            s.append(p);
        },
        None => {},
    }
    s.append(")");
    assert(s@ =~= spec_summary_line(
        n_findings as nat,
        errors as nat,
        advisories as nat,
        n_files as nat,
        fixed as nat,
        match config {
            Some(p) => Some(p@),
            None => None,
        },
    ));
    s
}

/// The exit status of `check`: 1 when any finding blocks, otherwise 0.
pub fn exit_status(errors: usize) -> (r: i32)
    ensures
        r == (if errors > 0 {
            1int
        } else {
            0int
        }),
{
    if errors > 0 {
        1
    } else {
        0
    }
}

} // verus!
