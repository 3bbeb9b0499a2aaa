//! The aggregation engine's decisions. The host shell performs discovery and
//! runs one probe per container concurrently; everything it decides with the
//! results — what counts as a successful probe, how a container's payload is
//! rewritten, how contributions merge, and when the pass as a whole fails —
//! stands here, verified. A probe's failure never keeps the other containers'
//! contributions out of the payload; only a discovery failure fails the pass.

use vstd::prelude::*;
use vstd::string::StringExecFns;
use crate::container::ContainerDescriptor;
use crate::container::lookup_label;
use crate::payload::relabel_metrics_payload;
use crate::payload::relabel_payload_spec;

verus! {

/// The outcome of one container's probe, as the host shell gathered it:
/// the container's display name, the command's exit status (`None` when the
/// status could not be read), and the captured standard output (`None` when
/// the command could not be created or started, or its stream broke).
pub struct ContainerProbe {
    pub name: String,
    pub exit_code: Option<i64>,
    pub output: Option<String>,
}

/// A probe succeeded when the command ran to exit status zero and captured a
/// non-empty output. Every other outcome is the absence value.
pub open spec fn probe_succeeded(p: ContainerProbe) -> bool {
    &&& p.exit_code == Some(0i64)
    &&& p.output is Some
    &&& p.output.unwrap()@.len() > 0
}

/// What one probe contributes to the merged payload: its relabeled output on
/// success, nothing on failure.
pub open spec fn contribution_spec(p: ContainerProbe) -> Seq<char> {
    if probe_succeeded(p) {
        relabel_payload_spec(p.output.unwrap()@, p.name@)
    } else {
        Seq::empty()
    }
}

/// The merged payload of one pass: every probe's contribution concatenated
/// in the order the probes are handed in.
pub open spec fn combined_spec(ps: Seq<ContainerProbe>) -> Seq<char>
    decreases ps.len(),
{
    if ps.len() == 0 {
        Seq::empty()
    } else {
        contribution_spec(ps[0]) + combined_spec(ps.drop_first())
    }
}

/// Why a pass produced no payload: discovery itself failed. Per-container
/// failures never surface here.
#[derive(Clone, Copy, PartialEq, Eq, Structural, Debug)]
pub enum ExportError {
    DiscoveryFailed,
}

/// The port-and-path a container is scraped on: the value of its own label
/// for the discovery key, or the fixed default.
pub open spec fn scrape_port_path_spec(labels: Seq<(String, String)>, key: Seq<char>) -> Seq<
    char,
> {
    match lookup_label(labels, key) {
        Some(v) => v,
        None => "9100/metrics"@,
    }
}

/// The probe URL, fetched from inside the container's own namespace.
pub open spec fn curl_url_spec(port_path: Seq<char>) -> Seq<char> {
    "http://localhost:"@ + port_path
}

/// Decides one probe's outcome and, on success, rewrites the captured output
/// with the container's identity. Failure — a missing stream, a missing or
/// non-zero exit status, empty output — yields `None` and nothing else.
pub fn probe_contribution(probe: &ContainerProbe) -> (r: Option<String>)
    ensures
        match r {
            Some(s) => probe_succeeded(*probe) && s@ == contribution_spec(*probe),
            None => !probe_succeeded(*probe),
        },
{
    let exited_zero = match probe.exit_code {
        Some(code) => code == 0,
        None => false,
    };
    if !exited_zero {
        return None;
    }
    match &probe.output {
        Some(out) => {
            if out.as_str().is_empty() {
                None
            } else {
                Some(relabel_metrics_payload(out.as_str(), probe.name.as_str()))
            }
        },
        None => None,
    }
}

/// The per-scrape engine: holds the one configured value, the label key that
/// both selects the containers to scrape and names each container's
/// scrape-target override.
#[derive(Clone)]
pub struct ServiceMetricsExporter {
    pub label_has_metrics: String,
}

impl ServiceMetricsExporter {
    pub fn new(label_has_metrics: String) -> (r: ServiceMetricsExporter)
        ensures
            r.label_has_metrics@ == label_has_metrics@,
    {
        ServiceMetricsExporter { label_has_metrics }
    }

    /// The argument vector of the in-container fetch for one discovered
    /// container: a quiet `curl` of the container's own scrape target.
    pub fn curl_command_for_container(&self, container: &ContainerDescriptor) -> (r: Vec<String>)
        ensures
            r@.len() == 3,
            r@[0]@ == "/bin/curl"@,
            r@[1]@ == "-s"@,
            r@[2]@ == curl_url_spec(
                scrape_port_path_spec(container.labels@, self.label_has_metrics@),
            ),
    {
        let port_path: String = match crate::container::find_label(
            &container.labels,
            &self.label_has_metrics,
        ) {
            Some(v) => v.clone(),
            None => "9100/metrics".to_owned(),
        };
        let mut url = "http://localhost:".to_owned();
        url.append(port_path.as_str());
        let mut cmd: Vec<String> = Vec::new();
        cmd.push("/bin/curl".to_owned());
        cmd.push("-s".to_owned());
        cmd.push(url);
        cmd
    }

    /// Merges one pass's probe outcomes into the single payload. `None`
    /// stands for a failed discovery and yields `None`; otherwise every
    /// probe's contribution is appended in order, failed probes contributing
    /// nothing, and the pass succeeds even with zero containers.
    pub fn get_combined_metrics_from_all_containers(&self, probes: Option<Vec<ContainerProbe>>) -> (r:
        Option<String>)
        ensures
            match r {
                Some(m) => probes is Some && m@ == combined_spec(probes.unwrap()@),
                None => probes is None,
            },
    {
        match probes {
            None => None,
            Some(ps) => {
                let n = ps.len();
                let mut all = String::new();
                let mut i: usize = 0;
                proof {
                    assert(ps@.skip(0) =~= ps@);
                    assert(all@ + combined_spec(ps@) =~= combined_spec(ps@));
                }
                while i < n
                    invariant
                        i <= n,
                        n == ps@.len(),
                        combined_spec(ps@) == all@ + combined_spec(ps@.skip(i as int)),
                    decreases n - i,
                {
                    proof {
                        assert(ps@.skip(i as int)[0] == ps@[i as int]);
                        assert(ps@.skip(i as int).drop_first() =~= ps@.skip(i + 1));
                    }
                    match probe_contribution(&ps[i]) {
                        Some(m) => all.append(m.as_str()),
                        None => {},
                    }
                    i = i + 1;
                }
                proof {
                    assert(ps@.skip(n as int) =~= Seq::<ContainerProbe>::empty());
                    assert(all@ + combined_spec(ps@.skip(n as int)) =~= all@);
                }
                Some(all)
            },
        }
    }

    /// The pass's result for the HTTP layer: the merged payload, or the
    /// discovery failure — never a partial or empty success in its place.
    pub fn export_metrics(&self, probes: Option<Vec<ContainerProbe>>) -> (r: Result<
        String,
        ExportError,
    >)
        ensures
            match r {
                Ok(m) => probes is Some && m@ == combined_spec(probes.unwrap()@),
                Err(e) => probes is None && e == ExportError::DiscoveryFailed,
            },
    {
        match self.get_combined_metrics_from_all_containers(probes) {
            Some(m) => Ok(m),
            None => Err(ExportError::DiscoveryFailed),
        }
    }
}

/// Aggregation over zero discovered containers yields the empty payload,
/// not a failure.
pub proof fn lemma_no_containers_empty_payload()
    ensures
        combined_spec(Seq::<ContainerProbe>::empty()) == Seq::<char>::empty(),
{
}

/// One probe's failure never disturbs the rest: the payload of a pass with a
/// failed probe is exactly the payload of the same pass without it.
pub proof fn lemma_failed_probe_contributes_nothing(ps: Seq<ContainerProbe>, k: int)
    requires
        0 <= k < ps.len(),
        !probe_succeeded(ps[k]),
    ensures
        combined_spec(ps) == combined_spec(ps.remove(k)),
    decreases ps.len(),
{
    if k == 0 {
        assert(ps.remove(0) =~= ps.drop_first());
        assert(contribution_spec(ps[0]) + combined_spec(ps.drop_first()) =~= combined_spec(
            ps.drop_first(),
        ));
    } else {
        lemma_failed_probe_contributes_nothing(ps.drop_first(), k - 1);
        assert(ps.remove(k).drop_first() =~= ps.drop_first().remove(k - 1));
        assert(ps.remove(k)[0] == ps[0]);
    }
}

} // verus!
