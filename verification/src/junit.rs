//! Minimal JUnit XML rendering for CI systems.
use vstd::prelude::*;
use crate::runner::{ScenarioOutcome, SuiteOutcome};
use crate::text::{chars_of, nat_text, push_char, push_str, push_usize};

verus! {

/// Unicode general category Cc (what `char::is_control` tests).
pub open spec fn is_control(c: char) -> bool {
    (c as u32) < 0x20 || (0x7f <= (c as u32) && (c as u32) <= 0x9f)
}

/// How one character is written in XML text or attribute values.
pub open spec fn xml_escape_char(c: char) -> Seq<char> {
    if c == '&' {
        "&amp;"@
    } else if c == '<' {
        "&lt;"@
    } else if c == '>' {
        "&gt;"@
    } else if c == '"' {
        "&quot;"@
    } else if c == '\'' {
        "&apos;"@
    } else if is_control(c) {
        Seq::empty()
    } else {
        seq![c]
    }
}

/// XML-escaped text: markup characters become entities, control characters are dropped.
pub open spec fn xml_escaped(s: Seq<char>) -> Seq<char>
    decreases s.len(),
{
    if s.len() == 0 {
        Seq::empty()
    } else {
        xml_escaped(s.drop_last()) + xml_escape_char(s.last())
    }
}

/// Escapes `input` for use in XML text and attribute values.
pub fn xml_escape(input: &str) -> (r: String)
    ensures
        r@ == xml_escaped(input@),
{
    let cs = chars_of(input);
    let mut buf = String::new();
    let mut i: usize = 0;
    while i < cs.len()
        invariant
            i <= cs@.len(),
            cs@ == input@,
            buf@ == xml_escaped(cs@.take(i as int)),
        decreases cs@.len() - i,
    {
        let ch = cs[i];
        let ghost before = buf@;
        let code: u32 = ch as u32;
        if ch == '&' {
            push_str(&mut buf, "&amp;");
        } else if ch == '<' {
            push_str(&mut buf, "&lt;");
        } else if ch == '>' {
            push_str(&mut buf, "&gt;");
        } else if ch == '"' {
            push_str(&mut buf, "&quot;");
        } else if ch == '\'' {
            push_str(&mut buf, "&apos;");
        } else if code < 0x20 || (0x7f <= code && code <= 0x9f) {
        } else {
            push_char(&mut buf, ch);
        }
        assert(buf@ =~= before + xml_escape_char(ch));
        assert(cs@.take(i + 1).drop_last() =~= cs@.take(i as int));
        i = i + 1;
    }
    assert(cs@.take(i as int) =~= cs@);
    buf
}

/// Scenarios among the first `n` that failed (not passed and not skipped).
pub open spec fn failure_count(s: Seq<ScenarioOutcome>, n: int) -> nat
    decreases n,
{
    if n <= 0 || n > s.len() {
        0
    } else {
        failure_count(s, n - 1) + if !s[n - 1].passed && !s[n - 1].skipped { 1nat } else { 0nat }
    }
}

/// Scenarios among the first `n` that were skipped.
pub open spec fn skipped_count(s: Seq<ScenarioOutcome>, n: int) -> nat
    decreases n,
{
    if n <= 0 || n > s.len() {
        0
    } else {
        skipped_count(s, n - 1) + if s[n - 1].skipped { 1nat } else { 0nat }
    }
}

/// The attributes shared by `<testsuites>` and `<testsuite>`.
pub open spec fn suite_attributes(name: Seq<char>, s: Seq<ScenarioOutcome>) -> Seq<char> {
    "name=\""@ + xml_escaped(name) + "\" tests=\""@ + nat_text(s.len()) + "\" failures=\""@
        + nat_text(failure_count(s, s.len() as int)) + "\" skipped=\""@
        + nat_text(skipped_count(s, s.len() as int)) + "\" errors=\"0\">\n"@
}

/// The `<testcase>` element of one scenario.
pub open spec fn testcase_xml(o: ScenarioOutcome) -> Seq<char> {
    "    <testcase classname=\"mcp_check\" name=\""@ + xml_escaped(o.name@) + "\">\n"@ + (if o.skipped {
        "      <skipped message=\"filtered by capabilities\"/>\n"@
    } else if !o.passed {
        match o.error {
            Some(msg) => "      <failure message=\"scenario failed\">"@ + xml_escaped(msg@)
                + "</failure>\n"@,
            None => "      <failure message=\"scenario failed\"/>\n"@,
        }
    } else {
        Seq::empty()
    }) + "    </testcase>\n"@
}

/// The `<testcase>` elements of the first `n` scenarios.
pub open spec fn testcases_xml(s: Seq<ScenarioOutcome>, n: int) -> Seq<char>
    decreases n,
{
    if n <= 0 || n > s.len() {
        Seq::empty()
    } else {
        testcases_xml(s, n - 1) + testcase_xml(s[n - 1])
    }
}

/// The JUnit document for a suite outcome.
pub open spec fn junit_xml(suite_name: Seq<char>, s: Seq<ScenarioOutcome>) -> Seq<char> {
    "<?xml version=\"1.0\" encoding=\"UTF-8\"?>"@ + "\n"@ + "<testsuites "@ + suite_attributes(
        suite_name,
        s,
    ) + "  <testsuite "@ + suite_attributes(suite_name, s) + testcases_xml(s, s.len() as int)
        + "  </testsuite>\n"@ + "</testsuites>\n"@
}

/// Appends the shared suite attributes.
fn push_suite_attributes(out: &mut String, name_esc: &str, tests: usize, failures: usize, skipped: usize)
    ensures
        final(out)@ == old(out)@ + "name=\""@ + name_esc@ + "\" tests=\""@ + nat_text(tests as nat)
            + "\" failures=\""@ + nat_text(failures as nat) + "\" skipped=\""@ + nat_text(skipped as nat)
            + "\" errors=\"0\">\n"@,
{
    let ghost start = out@;
    push_str(out, "name=\"");
    push_str(out, name_esc);
    push_str(out, "\" tests=\"");
    push_usize(out, tests);
    push_str(out, "\" failures=\"");
    push_usize(out, failures);
    push_str(out, "\" skipped=\"");
    push_usize(out, skipped);
    push_str(out, "\" errors=\"0\">\n");
}

/// Appends one scenario's `<testcase>` element.
fn push_testcase(out: &mut String, o: &ScenarioOutcome)
    ensures
        final(out)@ == old(out)@ + testcase_xml(*o),
{
    let ghost start = out@;
    push_str(out, "    <testcase classname=\"mcp_check\" name=\"");
    let name_esc = xml_escape(o.name.as_str());
    push_str(out, name_esc.as_str());
    push_str(out, "\">\n");
    let ghost mid = out@;
    if o.skipped {
        push_str(out, "      <skipped message=\"filtered by capabilities\"/>\n");
    } else if !o.passed {
        match &o.error {
            Some(msg) => {
                push_str(out, "      <failure message=\"scenario failed\">");
                let body_esc = xml_escape(msg.as_str());
                push_str(out, body_esc.as_str());
                push_str(out, "</failure>\n");
            },
            None => {
                push_str(out, "      <failure message=\"scenario failed\"/>\n");
            },
        }
    }
    push_str(out, "    </testcase>\n");
    assert(out@ =~= start + testcase_xml(*o));
}

/// Minimal JUnit XML for CI systems (escape-only, no timing granularity).
pub fn render_junit(suite_name: &str, outcome: &SuiteOutcome) -> (r: String)
    ensures
        r@ == junit_xml(suite_name@, outcome.scenarios@),
{
    let scenarios = &outcome.scenarios;
    let tests = scenarios.len();
    let mut failures: usize = 0;
    let mut skipped: usize = 0;
    let mut i: usize = 0;
    while i < scenarios.len()
        invariant
            i <= scenarios@.len(),
            failures == failure_count(scenarios@, i as int),
            skipped == skipped_count(scenarios@, i as int),
            failures <= i,
            skipped <= i,
        decreases scenarios@.len() - i,
    {
        if !scenarios[i].passed && !scenarios[i].skipped {
            failures = failures + 1;
        }
        if scenarios[i].skipped {
            skipped = skipped + 1;
        }
        i = i + 1;
    }
    let suite_name_esc = xml_escape(suite_name);
    let mut out = String::new();
    push_str(&mut out, "<?xml version=\"1.0\" encoding=\"UTF-8\"?>");
    push_char(&mut out, '\n');
    push_str(&mut out, "<testsuites ");
    push_suite_attributes(&mut out, suite_name_esc.as_str(), tests, failures, skipped);
    push_str(&mut out, "  <testsuite ");
    push_suite_attributes(&mut out, suite_name_esc.as_str(), tests, failures, skipped);
    let ghost head = out@;
    let mut k: usize = 0;
    while k < scenarios.len()
        invariant
            k <= scenarios@.len(),
            out@ == head + testcases_xml(scenarios@, k as int),
        decreases scenarios@.len() - k,
    {
        push_testcase(&mut out, &scenarios[k]);
        k = k + 1;
    }
    push_str(&mut out, "  </testsuite>\n");
    push_str(&mut out, "</testsuites>\n");
    proof {
        reveal_strlit("\n");
    }
    assert(out@ =~= junit_xml(suite_name@, scenarios@));
    out
}

/// Every character of `xml_escaped(s)` is neither `<`, `>`, `"` nor `'`.
proof fn lemma_xml_escaped_plain(s: Seq<char>)
    ensures
        forall|i: int| 0 <= i < xml_escaped(s).len() ==> {
            let c = #[trigger] xml_escaped(s)[i];
            c != '<' && c != '>' && c != '"' && c != '\''
        },
    decreases s.len(),
{
    if s.len() > 0 {
        lemma_xml_escaped_plain(s.drop_last());
        let c = s.last();
        reveal_strlit("&amp;");
        reveal_strlit("&lt;");
        reveal_strlit("&gt;");
        reveal_strlit("&quot;");
        reveal_strlit("&apos;");
        let a = xml_escaped(s.drop_last());
        let b = xml_escape_char(c);
        assert forall|i: int| 0 <= i < (a + b).len() implies {
            let d = #[trigger] (a + b)[i];
            d != '<' && d != '>' && d != '"' && d != '\''
        } by {
            if i >= a.len() {
                assert((a + b)[i] == b[i - a.len()]);
            } else {
                assert((a + b)[i] == a[i]);
            }
        }
    }
}

/// Law: escaped text never contains `<`, `>`, `"` or `'`, so it cannot open or close an
/// element or end an attribute value.
pub proof fn law_escaped_text_has_no_markup(s: Seq<char>)
    ensures
        forall|i: int| 0 <= i < xml_escaped(s).len() ==> {
            let c = #[trigger] xml_escaped(s)[i];
            c != '<' && c != '>' && c != '"' && c != '\''
        },
{
    lemma_xml_escaped_plain(s);
}

/// No scenario among the first `n` failed when all of them passed.
proof fn lemma_no_failures(s: Seq<ScenarioOutcome>, n: int)
    requires
        0 <= n <= s.len(),
        forall|i: int| 0 <= i < s.len() ==> #[trigger] s[i].passed,
    ensures
        failure_count(s, n) == 0,
    decreases n,
{
    if n > 0 {
        lemma_no_failures(s, n - 1);
        assert(s[n - 1].passed);
    }
}

/// Law: the JUnit report of a suite whose scenarios all passed (skipped ones count as
/// passed) declares zero failures.
pub proof fn law_passing_suite_reports_no_failures(scenarios: Seq<ScenarioOutcome>)
    requires
        forall|i: int| 0 <= i < scenarios.len() ==> #[trigger] scenarios[i].passed,
    ensures
        failure_count(scenarios, scenarios.len() as int) == 0,
{
    lemma_no_failures(scenarios, scenarios.len() as int);
}

} // verus!
