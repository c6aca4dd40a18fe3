//! Server-management helpers: the plain shapes the management API reports
//! (array, system, containers, virtual machines), container lookup by
//! display name, and the mutation query text. The GraphQL transport stays
//! outside.

use vstd::prelude::*;
use crate::text::{ascii_ci_eq_seq, chars_vec, string_from_chars};

verus! {

/// The array's state.
pub struct ArrayStatus {
    pub state: String,
}

/// The host's processor.
pub struct CpuInfo {
    pub brand: String,
    pub cores: u32,
    pub threads: u32,
}

/// The host's operating system.
pub struct OsInfo {
    pub hostname: String,
    pub uptime: Option<String>,
}

/// The host's processor and operating system.
pub struct SystemInfo {
    pub cpu: CpuInfo,
    pub os: OsInfo,
}

/// One container as the management API reports it.
pub struct DockerContainer {
    /// Container names, each with a leading slash.
    pub names: Vec<String>,
    pub status: String,
    pub state: String,
    pub id: String,
}

/// One virtual machine.
pub struct VmDomain {
    pub name: String,
    pub state: String,
}

/// The display name of a container: its first name without the leading
/// slash, or `unknown` when it has none.
pub open spec fn spec_container_display(c: DockerContainer) -> Seq<char> {
    if c.names@.len() == 0 {
        "unknown"@
    } else {
        let n = c.names@[0]@;
        if n.len() > 0 && n[0] == '/' {
            n.drop_first()
        } else {
            n
        }
    }
}

impl DockerContainer {
    /// The display name: the first name, without its leading slash.
    pub fn display_name(&self) -> (r: String)
        ensures
            r@ == spec_container_display(*self),
    {
        if self.names.len() == 0 {
            return "unknown".to_owned();
        }
        let v = chars_vec(self.names[0].as_str());
        if v.len() > 0 && v[0] == '/' {
            let mut out: Vec<char> = Vec::new();
            let mut i: usize = 1;
            while i < v.len()
                invariant
                    1 <= i <= v.len(),
                    v@ == self.names@[0]@,
                    out@ == v@.subrange(1, i as int),
                decreases v.len() - i,
            {
                out.push(v[i]);
                i += 1;
                proof {
                    assert(out@ =~= v@.subrange(1, i as int));
                }
            }
            proof {
                assert(out@ =~= self.names@[0]@.drop_first());
            }
            string_from_chars(&out)
        } else {
            self.names[0].clone()
        }
    }
}

/// A container answers to a requested name when its display name matches it
/// up to ASCII case.
pub open spec fn container_answers_to(c: DockerContainer, name: Seq<char>) -> bool {
    ascii_ci_eq_seq(spec_container_display(c), name)
}

/// Find the container a user named: the first whose display name matches up
/// to ASCII case, returning its id.
pub fn find_container_id(containers: &Vec<DockerContainer>, name: &str) -> (r: Option<String>)
    ensures
        match r {
            Some(id) => exists|i: int|
                0 <= i < containers@.len() && #[trigger] container_answers_to(
                    containers@[i],
                    name@,
                ) && id@ == containers@[i].id@ && (forall|k: int|
                    0 <= k < i ==> !container_answers_to(containers@[k], name@)),
            None => forall|i: int|
                0 <= i < containers@.len() ==> !container_answers_to(containers@[i], name@),
        },
{
    let mut i: usize = 0;
    while i < containers.len()
        invariant
            i <= containers.len(),
            forall|k: int| 0 <= k < i ==> !container_answers_to(containers@[k], name@),
        decreases containers.len() - i,
    {
        let display = containers[i].display_name();
        if crate::text::ascii_ci_eq(display.as_str(), name) {
            proof {
                assert(container_answers_to(containers@[i as int], name@));
            }
            return Some(containers[i].id.clone());
        }
        i += 1;
    }
    None
}

/// The mutation text for a start/stop action on a domain (`docker` or
/// `vm`), with the target id passed as a variable.
pub open spec fn spec_mutation_query(domain: Seq<char>, action: Seq<char>) -> Seq<char> {
    "mutation($id: PrefixedID!) { "@ + domain + " { "@ + action + "(id: $id) } }"@
}

/// Build the mutation text for a start/stop action.
pub fn mutation_query(domain: &str, action: &str) -> (r: String)
    ensures
        r@ == spec_mutation_query(domain@, action@),
{
    let mut s: String = "mutation($id: PrefixedID!) { ".to_owned();
    s.append(domain);
    s.append(" { ");
    s.append(action);
    s.append("(id: $id) } }");
    s
}

/// The reply after a successful action.
pub fn action_succeeded_message(action: &str) -> (r: String)
    ensures
        r@ == action@ + " succeeded"@,
{
    let mut s: String = action.to_owned();
    s.append(" succeeded");
    s
}

} // verus!
