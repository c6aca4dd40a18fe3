//! Health-report helpers: one line per checked service from its plain
//! outcome, and the assembled report. The concurrent HTTP probes stay
//! outside and hand back one outcome per service.

use vstd::prelude::*;
use crate::text::{spec_dec, string_from_chars, u64_dec_chars};

verus! {

/// One service to probe: where, and with which optional key header.
pub struct ServiceTarget {
    pub name: String,
    pub url: String,
    pub api_key: Option<String>,
    pub key_header: Option<String>,
}

/// What one probe observed.
pub enum HealthOutcome {
    /// A successful response, with the round trip in milliseconds.
    Up(u64),
    /// A response with this non-success status code.
    HttpDown(u16),
    /// The probe timed out.
    Timeout,
    /// The connection itself failed.
    ConnError,
}

/// The report line for one service's outcome.
pub open spec fn spec_health_line(name: Seq<char>, outcome: HealthOutcome) -> Seq<char> {
    match outcome {
        HealthOutcome::Up(ms) => "- "@ + name + ": [UP] ("@ + spec_dec(ms as int) + "ms)"@,
        HealthOutcome::HttpDown(code) => "- "@ + name + ": [DOWN] (HTTP "@ + spec_dec(code as int)
            + ")"@,
        HealthOutcome::Timeout => "- "@ + name + ": [DOWN] (timeout)"@,
        HealthOutcome::ConnError => "- "@ + name + ": [DOWN] (connection error)"@,
    }
}

/// Render the report line for one service.
pub fn health_line(name: &str, outcome: &HealthOutcome) -> (r: String)
    ensures
        r@ == spec_health_line(name@, *outcome),
{
    let mut s: String = "- ".to_owned();
    s.append(name);
    match outcome {
        HealthOutcome::Up(ms) => {
            s.append(": [UP] (");
            let d = u64_dec_chars(*ms);
            let ds = string_from_chars(&d);
            s.append(ds.as_str());
            s.append("ms)");
        },
        HealthOutcome::HttpDown(code) => {
            s.append(": [DOWN] (HTTP ");
            let d = u64_dec_chars(*code as u64);
            let ds = string_from_chars(&d);
            s.append(ds.as_str());
            s.append(")");
        },
        HealthOutcome::Timeout => {
            s.append(": [DOWN] (timeout)");
        },
        HealthOutcome::ConnError => {
            s.append(": [DOWN] (connection error)");
        },
    }
    s
}

/// The whole report: a heading, then one line per service in order.
pub open spec fn spec_health_report(lines: Seq<Seq<char>>) -> Seq<char>
    decreases lines.len(),
{
    if lines.len() == 0 {
        "**Service Health**"@
    } else {
        spec_health_report(lines.drop_last()) + "\n"@ + lines.last()
    }
}

/// Assemble the health report from the per-service lines.
pub fn health_report(lines: &Vec<String>) -> (r: String)
    ensures
        r@ == spec_health_report(lines@.map_values(|l: String| l@)),
{
    let ghost views = lines@.map_values(|l: String| l@);
    let mut s: String = "**Service Health**".to_owned();
    let mut i: usize = 0;
    proof {
        assert(views.subrange(0, 0) =~= Seq::<Seq<char>>::empty());
    }
    while i < lines.len()
        invariant
            i <= lines.len(),
            views == lines@.map_values(|l: String| l@),
            s@ == spec_health_report(views.subrange(0, i as int)),
        decreases lines.len() - i,
    {
        s.append("\n");
        s.append(lines[i].as_str());
        i += 1;
        proof {
            let pre = views.subrange(0, i as int);
            assert(pre.drop_last() =~= views.subrange(0, i - 1));
        }
    }
    proof {
        assert(views.subrange(0, views.len() as int) =~= views);
    }
    s
}

} // verus!
