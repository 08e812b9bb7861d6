//! Log retrieval: which command shows the logs of a pod, of a resource's pods, or of a job.
use vstd::prelude::*;
use crate::cli::ConfigFileArgs;
use crate::errors::SkateError;
use crate::resource::{resource_type_text, ResourceType};
use crate::text::{decimal, join2, join_with, joined, owned, split_once_char, split_once_spec, text_eq, views};

verus! {

/// Arguments of `skate logs`.
#[derive(Debug)]
pub struct LogArgs {
    pub config: ConfigFileArgs,
    pub follow: bool,
    pub tail: i32,
    pub namespace: Option<String>,
    pub identifier: String,
}

/// The words of the podman command that prints a pod's logs, before the pod's name.
pub open spec fn podman_log_words(follow: bool, tail: i32) -> Seq<Seq<char>> {
    let base = seq!["sudo"@, "podman"@, "pod"@, "logs"@, "--names"@, "--timestamps"@];
    let f = if follow { base.push("--follow"@) } else { base };
    if tail > 0 { f.push("--tail "@ + decimal(tail as nat)) } else { f }
}

/// The words of the journalctl command that prints a unit's logs, before the unit's name.
pub open spec fn journalctl_words(follow: bool, tail: i32) -> Seq<Seq<char>> {
    let base = seq!["sudo"@, "journalctl"@, "--output"@, "short-iso-precise"@, "--quiet"@];
    let f = if follow { base.push("-f"@) } else { base };
    let t = if tail > 0 { f.push("-n "@ + decimal(tail as nat)) } else { f };
    t.push("-u"@)
}

fn words(parts: &[&str]) -> (res: Vec<String>)
    ensures
        views(res@) == parts@.map_values(|s: &str| s@),
{
    let mut v: Vec<String> = Vec::new();
    let mut i: usize = 0;
    while i < parts.len()
        invariant
            i <= parts@.len(),
            views(v@) == parts@.take(i as int).map_values(|s: &str| s@),
        decreases parts.len() - i,
    {
        let ghost before = v@;
        v.push(owned(parts[i]));
        proof {
            assert(views(v@) =~= views(before).push(parts@[i as int]@));
            assert(parts@.take(i + 1) =~= parts@.take(i as int).push(parts@[i as int]));
            assert(parts@.take(i + 1).map_values(|s: &str| s@) =~= parts@.take(i as int).map_values(
                |s: &str| s@,
            ).push(parts@[i as int]@));
        }
        i = i + 1;
    }
    assert(parts@.take(parts@.len() as int) =~= parts@);
    v
}

fn push_word(v: &mut Vec<String>, w: String)
    ensures
        views(final(v)@) == views(old(v)@).push(w@),
{
    v.push(w);
    assert(views(v@) =~= views(old(v)@).push(w@));
}

impl LogArgs {
    /// The podman command words that print a pod's logs (the pod's name comes after them).
    pub fn to_podman_log_args(&self) -> (res: Vec<String>)
        ensures
            views(res@) == podman_log_words(self.follow, self.tail),
    {
        let mut cmd = words(&["sudo", "podman", "pod", "logs", "--names", "--timestamps"]);
        proof {
            assert(views(cmd@) =~= seq!["sudo"@, "podman"@, "pod"@, "logs"@, "--names"@, "--timestamps"@]);
        }
        if self.follow {
            push_word(&mut cmd, owned("--follow"));
        }
        if self.tail > 0 {
            let mut t = owned("--tail ");
            crate::text::push_decimal(&mut t, self.tail as u64);
            push_word(&mut cmd, t);
        }
        cmd
    }

    /// The journalctl command words that print a unit's logs (the unit's name comes after them).
    pub fn to_journalctl_args(&self) -> (res: Vec<String>)
        ensures
            views(res@) == journalctl_words(self.follow, self.tail),
    {
        let mut cmd = words(&["sudo", "journalctl", "--output", "short-iso-precise", "--quiet"]);
        proof {
            assert(views(cmd@) =~= seq!["sudo"@, "journalctl"@, "--output"@, "short-iso-precise"@, "--quiet"@]);
        }
        if self.follow {
            push_word(&mut cmd, owned("-f"));
        }
        if self.tail > 0 {
            let mut t = owned("-n ");
            crate::text::push_decimal(&mut t, self.tail as u64);
            push_word(&mut cmd, t);
        }
        push_word(&mut cmd, owned("-u"));
        cmd
    }
}

/// Where the logs of an identifier come from.
#[derive(Debug, Clone, Copy, PartialEq, Eq, Structural)]
pub enum LogSource {
    /// The pod itself, through podman.
    Pod,
    /// Every pod that a deployment or daemonset runs, through podman.
    ChildPods(ResourceType),
    /// The systemd unit of a cron job, through journalctl.
    Journal(ResourceType),
}

/// The kind part and the name part of a `POD | TYPE/NAME` identifier: a missing kind means `pod`.
pub open spec fn identifier_parts(id: Seq<char>) -> (Seq<char>, Seq<char>) {
    match split_once_spec(id, '/') {
        Some((k, n)) => (k, n),
        None => ("pod"@, id),
    }
}

/// The log source for an identifier's kind; other kinds are refused.
pub open spec fn log_source_for(kind: Seq<char>) -> Option<LogSource> {
    if kind == "pod"@ {
        Some(LogSource::Pod)
    } else if kind == "deployment"@ {
        Some(LogSource::ChildPods(ResourceType::Deployment))
    } else if kind == "daemonset"@ {
        Some(LogSource::ChildPods(ResourceType::DaemonSet))
    } else if kind == "cronjob"@ {
        Some(LogSource::Journal(ResourceType::CronJob))
    } else {
        None
    }
}

/// Decides where the logs of `identifier` come from and the name of the thing to read.
pub fn log_target(identifier: &str) -> (res: Result<(LogSource, String), SkateError>)
    ensures
        match log_source_for(identifier_parts(identifier@).0) {
            Some(src) => res matches Ok((s, n)) && s == src && n@ == identifier_parts(identifier@).1,
            None => res is Err,
        },
{
    let (kind, name) = match split_once_char(identifier, '/') {
        Some((k, n)) => (k, n),
        None => (owned("pod"), owned(identifier)),
    };
    if text_eq(kind.as_str(), "pod") {
        Ok((LogSource::Pod, name))
    } else if text_eq(kind.as_str(), "deployment") {
        Ok((LogSource::ChildPods(ResourceType::Deployment), name))
    } else if text_eq(kind.as_str(), "daemonset") {
        Ok((LogSource::ChildPods(ResourceType::DaemonSet), name))
    } else if text_eq(kind.as_str(), "cronjob") {
        Ok((LogSource::Journal(ResourceType::CronJob), name))
    } else {
        Err(SkateError::String(join2("Unexpected resource type ", kind.as_str())))
    }
}

/// The shell command that prints a pod's logs.
pub fn pod_log_command(args: &LogArgs, name: &str) -> (res: String)
    ensures
        res@ == joined(podman_log_words(args.follow, args.tail).push(name@), " "@),
{
    let mut cmd = args.to_podman_log_args();
    push_word(&mut cmd, owned(name));
    join_with(&cmd, " ")
}

/// The shell command that prints the logs of every pod that a deployment or daemonset runs.
pub fn child_pods_log_command(args: &LogArgs, resource_type: ResourceType, name: &str, ns: &str) -> (res: String)
    ensures
        res@ == "for id in $(sudo podman pod ls --filter label=skate.io/"@ + resource_type_text(resource_type)
            + "="@ + name@ + " --filter label=skate.io/namespace="@ + ns@ + " -q); do "@
            + joined(podman_log_words(args.follow, args.tail), " "@) + " $id & done; wait;"@,
{
    let cmd = args.to_podman_log_args();
    let log_cmd = join_with(&cmd, " ");
    let mut s = owned("for id in $(sudo podman pod ls --filter label=skate.io/");
    s.append(resource_type.to_string().as_str());
    s.append("=");
    s.append(name);
    s.append(" --filter label=skate.io/namespace=");
    s.append(ns);
    s.append(" -q); do ");
    s.append(log_cmd.as_str());
    s.append(" $id & done; wait;");
    s
}

/// The shell command that prints the journal of a cron job's systemd unit.
pub fn journal_log_command(args: &LogArgs, resource_type: ResourceType, name: &str, ns: &str) -> (res: String)
    ensures
        res@ == joined(
            journalctl_words(args.follow, args.tail).push(
                "skate-"@ + resource_type_text(resource_type) + "-"@ + name@ + "."@ + ns@ + ".service"@,
            ),
            " "@,
        ),
{
    let mut cmd = args.to_journalctl_args();
    let mut unit = owned("skate-");
    unit.append(resource_type.to_string().as_str());
    unit.append("-");
    unit.append(name);
    unit.append(".");
    unit.append(ns);
    unit.append(".service");
    push_word(&mut cmd, unit);
    join_with(&cmd, " ")
}

} // verus!
