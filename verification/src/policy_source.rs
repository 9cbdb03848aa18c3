//! Provenance of a policy run (where the policy lives, which workflow produced the PR),
//! rendered as a short Markdown block for PR descriptions.

use vstd::prelude::*;
use vstd::string::*;
use vstd::utf8::*;

use crate::model::clone_opt_string;
use crate::text::{find_from, find_str, tail_str};

verus! {

broadcast use encode_utf8_decode_utf8;

/// Where the policy came from and what produced this run. Every piece is optional and
/// independent of the others.
#[derive(Debug)]
pub struct PolicySourceInfo {
    /// Browser URL of the policy repo, e.g. `https://github.com/waratek/cml`.
    pub repo_url: Option<String>,
    /// Commit SHA pinned to this run, for a `/tree/<sha>` deep link.
    pub commit_sha: Option<String>,
    /// Branch/ref name (fallback when no SHA is available).
    pub ref_name: Option<String>,
    /// URL of the workflow run.
    pub workflow_run_url: Option<String>,
    /// Human-readable workflow name (e.g. `policy-enforcement`).
    pub workflow_name: Option<String>,
}

impl Default for PolicySourceInfo {
    fn default() -> (r: Self)
        ensures
            r.repo_url is None,
            r.commit_sha is None,
            r.ref_name is None,
            r.workflow_run_url is None,
            r.workflow_name is None,
    {
        PolicySourceInfo {
            repo_url: None,
            commit_sha: None,
            ref_name: None,
            workflow_run_url: None,
            workflow_name: None,
        }
    }
}

impl Clone for PolicySourceInfo {
    fn clone(&self) -> (r: Self)
        ensures
            r.spec_view() == self.spec_view(),
    {
        PolicySourceInfo {
            repo_url: clone_opt_string(&self.repo_url),
            commit_sha: clone_opt_string(&self.commit_sha),
            ref_name: clone_opt_string(&self.ref_name),
            workflow_run_url: clone_opt_string(&self.workflow_run_url),
            workflow_name: clone_opt_string(&self.workflow_name),
        }
    }
}

/// The view of an optional string: its characters, if present.
pub open spec fn opt_view(o: Option<String>) -> Option<Seq<char>> {
    match o {
        Some(s) => Some(s@),
        None => None,
    }
}

/// The five pieces of provenance, in field order, as character sequences.
pub type PolicySourceView = (
    Option<Seq<char>>,
    Option<Seq<char>>,
    Option<Seq<char>>,
    Option<Seq<char>>,
    Option<Seq<char>>,
);

impl PolicySourceInfo {
    pub open spec fn spec_view(&self) -> PolicySourceView {
        (
            opt_view(self.repo_url),
            opt_view(self.commit_sha),
            opt_view(self.ref_name),
            opt_view(self.workflow_run_url),
            opt_view(self.workflow_name),
        )
    }

    /// Whether any piece of provenance is known.
    pub open spec fn spec_is_present(&self) -> bool {
        ||| self.repo_url is Some
        ||| self.commit_sha is Some
        ||| self.ref_name is Some
        ||| self.workflow_run_url is Some
        ||| self.workflow_name is Some
    }

    /// True when at least one piece of context is set: only then is a source block emitted.
    pub fn is_present(&self) -> (r: bool)
        ensures
            r == self.spec_is_present(),
    {
        self.repo_url.is_some() || self.commit_sha.is_some() || self.ref_name.is_some()
            || self.workflow_run_url.is_some() || self.workflow_name.is_some()
    }

    /// Override the repo URL, keeping every other piece.
    pub fn with_repo_url(self, url: &str) -> (r: Self)
        ensures
            opt_view(r.repo_url) == Some(url@),
            r.spec_view().1 == self.spec_view().1,
            r.spec_view().2 == self.spec_view().2,
            r.spec_view().3 == self.spec_view().3,
            r.spec_view().4 == self.spec_view().4,
    {
        let mut s = self;
        s.repo_url = Some(url.to_owned());
        s
    }

    /// The Markdown block describing this run's provenance; `None` when nothing is known.
    pub fn render_markdown(&self) -> (r: Option<String>)
        ensures
            match r {
                Some(md) => self.spec_is_present() && md@ == source_markdown(self.spec_view()),
                None => !self.spec_is_present(),
            },
    {
        if !self.is_present() {
            return None;
        }
        let mut out = String::new();
        if let Some(repo_url) = &self.repo_url {
            let line = render_repo_line(repo_url.as_str(), &self.commit_sha);
            out.append(line.as_str());
        }
        let ghost first = out@;
        if let Some(run_url) = &self.workflow_run_url {
            let line = render_run_line(run_url.as_str(), &self.workflow_name);
            out.append(line.as_str());
        }
        proof {
            assert(out@ =~= source_markdown(self.spec_view()));
        }
        Some(out)
    }
}

/// The compact `<org>/<repo>` label of a URL: everything after the scheme's `://` and the
/// host's `/`; the rest after `://` when there is no `/`; the whole URL when there is no `://`.
pub open spec fn url_label(url: Seq<char>) -> Seq<char> {
    match find_from(url, seq![':', '/', '/'], 0) {
        None => url,
        Some(i) => {
            let rest = url.subrange(i + 3, url.len() as int);
            match find_from(rest, seq!['/'], 0) {
                None => rest,
                Some(j) => rest.subrange(j + 1, rest.len() as int),
            }
        },
    }
}

/// The abbreviated SHA shown in labels: its first seven bytes when they end on a character
/// boundary, else the whole SHA.
pub open spec fn spec_short_sha(sha: Seq<char>) -> Seq<char> {
    if is_char_boundary(encode_utf8(sha), 7) {
        decode_utf8(encode_utf8(sha).subrange(0, 7))
    } else {
        sha
    }
}

/// The `Policy defined in` line for a policy repo URL and an optional pinned SHA.
pub open spec fn repo_line(url: Seq<char>, sha: Option<Seq<char>>) -> Seq<char> {
    let (label, target) = match sha {
        Some(s) => if s.len() > 0 {
            (url_label(url) + " @ "@ + spec_short_sha(s), url + "/tree/"@ + s)
        } else {
            (url_label(url), url)
        },
        None => (url_label(url), url),
    };
    "Policy defined in ["@ + label + "]("@ + target + ")\n"@
}

/// The `Opened by` line for a workflow run URL and an optional workflow name.
pub open spec fn run_line(run_url: Seq<char>, name: Option<Seq<char>>) -> Seq<char> {
    let label = match name {
        Some(w) => "workflow run"@ + " ("@ + w + ")"@,
        None => "workflow run"@,
    };
    "Opened by ["@ + label + "]("@ + run_url + ")\n"@
}

/// The Markdown block: the repo line when a repo URL is known, then the run line when a
/// run URL is known.
pub open spec fn source_markdown(v: PolicySourceView) -> Seq<char> {
    (match v.0 {
        Some(url) => repo_line(url, v.1),
        None => Seq::empty(),
    }) + (match v.3 {
        Some(run) => run_line(run, v.4),
        None => Seq::empty(),
    })
}

fn strip_url_prefix(url: &str) -> (r: &str)
    ensures
        r@ == url_label(url@),
{
    proof {
        reveal_strlit("://");
        reveal_strlit("/");
        assert("://"@ =~= seq![':', '/', '/']);
        assert("/"@ =~= seq!['/']);
    }
    match find_str(url, "://") {
        None => url,
        Some(i) => {
            let rest = tail_str(url, i + 3);
            match find_str(rest, "/") {
                None => rest,
                Some(j) => tail_str(rest, j + 1),
            }
        },
    }
}

fn short_sha(sha: &str) -> (r: &str)
    ensures
        r@ == spec_short_sha(sha@),
{
    if sha.is_char_boundary(7) {
        let (head, _rest) = sha.split_at(7);
        proof {
            assert(encode_utf8(head@) == encode_utf8(sha@).subrange(0, 7));
        }
        head
    } else {
        sha
    }
}


fn render_repo_line(repo_url: &str, commit_sha: &Option<String>) -> (line: String)
    ensures
        line@ == repo_line(repo_url@, opt_view(*commit_sha)),
{
    let label_base = strip_url_prefix(repo_url);
    let mut out = String::new();
    out.append("Policy defined in [");
    out.append(label_base);
    let pinned = match commit_sha {
        Some(sha) => sha.unicode_len() > 0,
        None => false,
    };
    if pinned {
        let sha = commit_sha.as_ref().unwrap();
        let short = short_sha(sha.as_str());
        out.append(" @ ");
        out.append(short);
        out.append("](");
        out.append(repo_url);
        out.append("/tree/");
        out.append(sha.as_str());
    } else {
        out.append("](");
        out.append(repo_url);
    }
    out.append(")\n");
    proof {
        assert(out@ =~= repo_line(repo_url@, opt_view(*commit_sha)));
    }
    out
}

fn render_run_line(run_url: &str, workflow_name: &Option<String>) -> (line: String)
    ensures
        line@ == run_line(run_url@, opt_view(*workflow_name)),
{
    let mut out = String::new();
    out.append("Opened by [");
    out.append("workflow run");
    if let Some(w) = workflow_name {
        out.append(" (");
        out.append(w.as_str());
        out.append(")");
    }
    out.append("](");
    out.append(run_url);
    out.append(")\n");
    proof {
        assert(out@ =~= run_line(run_url@, opt_view(*workflow_name)));
    }
    out
}

/// What the GitHub Actions environment holds for a run, variable by variable (`None` when
/// unset).
#[derive(Debug)]
pub struct ActionsEnv {
    /// `GITHUB_ACTIONS`.
    pub actions: Option<String>,
    /// `GITHUB_SERVER_URL`.
    pub server_url: Option<String>,
    /// `GITHUB_REPOSITORY`.
    pub repository: Option<String>,
    /// `GITHUB_SHA`.
    pub sha: Option<String>,
    /// `GITHUB_REF_NAME`.
    pub ref_name: Option<String>,
    /// `GITHUB_RUN_ID`.
    pub run_id: Option<String>,
    /// `GITHUB_WORKFLOW`.
    pub workflow: Option<String>,
}

/// A variable's value when it is set and not empty.
pub open spec fn given(o: Option<String>) -> Option<Seq<char>> {
    match o {
        Some(s) => if s@.len() > 0 { Some(s@) } else { None },
        None => None,
    }
}

/// The provenance the Actions environment gives: nothing unless `GITHUB_ACTIONS` is `true`;
/// otherwise the repository URL on the server (`https://github.com` by default), the commit,
/// the ref, the run's URL when both repository and run id are known, and the workflow name.
pub open spec fn actions_source(e: ActionsEnv) -> PolicySourceView {
    if opt_view(e.actions) != Some("true"@) {
        (None, None, None, None, None)
    } else {
        let server = match given(e.server_url) {
            Some(s) => s,
            None => "https://github.com"@,
        };
        (
            match given(e.repository) {
                Some(r) => Some(server + "/"@ + r),
                None => None,
            },
            given(e.sha),
            given(e.ref_name),
            match (given(e.repository), given(e.run_id)) {
                (Some(r), Some(id)) => Some(server + "/"@ + r + "/actions/runs/"@ + id),
                _ => None,
            },
            given(e.workflow),
        )
    }
}

fn given_value(o: &Option<String>) -> (r: Option<String>)
    ensures
        opt_view(r) == given(*o),
{
    match o {
        Some(s) => if s.unicode_len() > 0 { Some(s.clone()) } else { None },
        None => None,
    }
}

impl PolicySourceInfo {
    /// The provenance of a run from its GitHub Actions environment (see [`actions_source`]);
    /// all `None` outside Actions, so a caller can layer [`Self::with_repo_url`] on top.
    pub fn from_github_actions_env(env: &ActionsEnv) -> (r: Self)
        ensures
            r.spec_view() == actions_source(*env),
    {
        let in_actions = match &env.actions {
            Some(a) => crate::text::str_eq(a.as_str(), "true"),
            None => false,
        };
        if !in_actions {
            return PolicySourceInfo::default();
        }
        let server = match given_value(&env.server_url) {
            Some(s) => s,
            None => "https://github.com".to_owned(),
        };
        let repository = given_value(&env.repository);
        let run_id = given_value(&env.run_id);
        let repo_url = match &repository {
            Some(r) => {
                let mut u = server.clone();
                u.append("/");
                u.append(r.as_str());
                Some(u)
            },
            None => None,
        };
        let workflow_run_url = match (&repository, &run_id) {
            (Some(r), Some(id)) => {
                let mut u = server.clone();
                u.append("/");
                u.append(r.as_str());
                u.append("/actions/runs/");
                u.append(id.as_str());
                Some(u)
            },
            _ => None,
        };
        PolicySourceInfo {
            repo_url,
            commit_sha: given_value(&env.sha),
            ref_name: given_value(&env.ref_name),
            workflow_run_url,
            workflow_name: given_value(&env.workflow),
        }
    }
}

} // verus!
