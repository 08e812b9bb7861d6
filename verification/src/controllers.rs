//! What the node agent decides when it applies or removes pods, secrets and services: the
//! podman and systemd commands it runs and the names it gives them.
use vstd::prelude::*;
use crate::errors::SkateError;
use crate::cron::{cron_schedule_of, cron_to_systemd, timer_text, trimmed};
use crate::manifest::CronJob;
use crate::naming::{NamespacedName, metadata_name, metadata_name_spec, ns_name_text};
use crate::text::{ascii_words, decimal, join2, owned, push_decimal, split_words, views};

verus! {

/// Runs pods on the node through podman.
#[derive(Debug)]
pub struct PodController {}

/// The podman calls that stop and remove one pod, in order: inspect its containers, send it
/// SIGTERM, wait (bounded by the grace period) for its containers, then remove it by force.
#[derive(Debug)]
pub struct PodRemoval {
    /// Arguments of `podman` that list the pod's container ids.
    pub inspect_args: Vec<String>,
    /// Arguments of `podman` that send the pod SIGTERM.
    pub kill_args: Vec<String>,
    /// The grace period in seconds, as text.
    pub grace: String,
    /// Arguments of `podman` that remove the pod.
    pub rm_args: Vec<String>,
}

fn strings(parts: Vec<&str>) -> (res: Vec<String>)
    ensures
        views(res@) == parts@.map_values(|p: &str| p@),
{
    let mut out: Vec<String> = Vec::new();
    let mut i: usize = 0;
    while i < parts.len()
        invariant
            i <= parts@.len(),
            views(out@) == parts@.take(i as int).map_values(|p: &str| p@),
        decreases parts.len() - i,
    {
        let ghost before = views(out@);
        out.push(owned(parts[i]));
        proof {
            assert(views(out@) =~= before.push(parts@[i as int]@));
            assert(parts@.take(i + 1).map_values(|p: &str| p@) =~= parts@.take(i as int).map_values(|p: &str| p@).push(parts@[i as int]@));
        }
        i = i + 1;
    }
    assert(parts@.take(parts@.len() as int) =~= parts@);
    out
}

/// Whether `r` holds the podman calls that stop and remove the pod `id` (see
/// `PodController::removal`).
pub open spec fn is_removal_of(r: PodRemoval, id: Seq<char>, grace_period: Option<usize>) -> bool {
    &&& views(r.inspect_args@) == seq!["pod"@, "inspect"@, id, "--format={{range.Containers}}{{.Id}} {{end}}"@]
    &&& views(r.kill_args@) == seq!["pod"@, "kill"@, "--signal"@, "SIGTERM"@, id]
    &&& r.grace@ == decimal(match grace_period { Some(g) => g as nat, None => 10nat })
    &&& views(r.rm_args@) == seq!["pod"@, "rm"@, "--force"@, id]
}

impl PodController {
    pub fn new() -> (res: PodController) {
        PodController {}
    }

    /// The podman calls that stop and remove the pod `id` (see `PodRemoval`); the grace period
    /// is 10 seconds where none is given. A pod without an id is refused.
    pub fn removal(&self, id: &str, grace_period: Option<usize>) -> (res: Result<PodRemoval, SkateError>)
        ensures
            id@.len() == 0 ==> (res matches Err(e) && e.message() == "no metadata.name found"@),
            id@.len() > 0 ==> (res matches Ok(r) && is_removal_of(r, id@, grace_period)),
    {
        if id.unicode_len() == 0 {
            return Err(SkateError::msg("no metadata.name found"));
        }
        let g: u64 = match grace_period { Some(g) => g as u64, None => 10 };
        let mut grace = String::new();
        push_decimal(&mut grace, g);
        assert(grace@ =~= decimal(g as nat));
        let inspect_args = strings(vec!["pod", "inspect", id, "--format={{range.Containers}}{{.Id}} {{end}}"]);
        let kill_args = strings(vec!["pod", "kill", "--signal", "SIGTERM", id]);
        let rm_args = strings(vec!["pod", "rm", "--force", id]);
        proof {
            assert(views(inspect_args@) =~= seq!["pod"@, "inspect"@, id@, "--format={{range.Containers}}{{.Id}} {{end}}"@]);
            assert(views(kill_args@) =~= seq!["pod"@, "kill"@, "--signal"@, "SIGTERM"@, id@]);
            assert(views(rm_args@) =~= seq!["pod"@, "rm"@, "--force"@, id@]);
        }
        Ok(PodRemoval { inspect_args, kill_args, grace, rm_args })
    }

    /// The removals of several pods, one for each id in order, each as `removal` gives it: every
    /// id is tried, whatever came of the ones before it, and an empty id is refused without
    /// any podman call for it.
    pub fn removals(&self, ids: &Vec<String>, grace_period: Option<usize>) -> (res: Vec<Result<PodRemoval, SkateError>>)
        ensures
            res@.len() == ids@.len(),
            forall|i: int| 0 <= i < ids@.len() ==> (#[trigger] ids@[i])@.len() == 0 ==> (res@[i] matches Err(e)
                && e.message() == "no metadata.name found"@),
            forall|i: int| 0 <= i < ids@.len() ==> (#[trigger] ids@[i])@.len() > 0 ==> (res@[i] matches Ok(r)
                && is_removal_of(r, ids@[i]@, grace_period)),
    {
        let mut out: Vec<Result<PodRemoval, SkateError>> = Vec::new();
        let mut i: usize = 0;
        while i < ids.len()
            invariant
                i <= ids@.len(),
                out@.len() == i,
                forall|j: int| 0 <= j < i ==> (#[trigger] ids@[j])@.len() == 0 ==> (out@[j] matches Err(e)
                    && e.message() == "no metadata.name found"@),
                forall|j: int| 0 <= j < i ==> (#[trigger] ids@[j])@.len() > 0 ==> (out@[j] matches Ok(r)
                    && is_removal_of(r, ids@[j]@, grace_period)),
            decreases ids.len() - i,
        {
            let r = self.removal(ids[i].as_str(), grace_period);
            out.push(r);
            i = i + 1;
        }
        out
    }

    /// The arguments of `timeout` that wait for the pod's containers: the grace period,
    /// `podman wait`, then the container ids that the inspection printed (separated by ASCII
    /// whitespace).
    pub fn wait_args(&self, removal: &PodRemoval, inspected: &str) -> (res: Vec<String>)
        ensures
            views(res@) == seq![removal.grace@, "podman"@, "wait"@] + ascii_words(inspected@),
    {
        let mut out: Vec<String> = Vec::new();
        out.push(removal.grace.clone());
        out.push(owned("podman"));
        out.push(owned("wait"));
        let ids = split_words(inspected, true);
        let ghost base = views(out@);
        assert(base =~= seq![removal.grace@, "podman"@, "wait"@]);
        let mut i: usize = 0;
        while i < ids.len()
            invariant
                i <= ids@.len(),
                views(out@) == base + views(ids@).take(i as int),
            decreases ids.len() - i,
        {
            let ghost before = views(out@);
            out.push(ids[i].clone());
            proof {
                assert(views(out@) =~= before.push(ids@[i as int]@));
                assert(views(ids@).take(i + 1) =~= views(ids@).take(i as int).push(ids@[i as int]@));
            }
            i = i + 1;
        }
        assert(views(ids@).take(ids@.len() as int) =~= views(ids@));
        out
    }

    /// The outcome of removing several pods, given for each pod, in order, its planned removal
    /// (as `removals` gives them) and what carrying it out gave (ignored where the removal was
    /// refused, since nothing was called for it): a success where every pod was removed,
    /// otherwise every failure in order (see `pod_failures`).
    pub fn delete_podman_pods(&self, removals: Vec<Result<PodRemoval, SkateError>>, calls: Vec<Result<(), SkateError>>) -> (res: Result<(), SkateError>)
        requires
            removals@.len() == calls@.len(),
        ensures
            pod_failures(removals@, calls@).len() == 0 ==> res is Ok,
            pod_failures(removals@, calls@).len() > 0 ==> (res matches Err(SkateError::Multi(v)) && v@ == pod_failures(removals@, calls@)),
    {
        let ghost target = pod_failures(removals@, calls@);
        let mut rs = removals;
        let mut cs = calls;
        let mut back: Vec<SkateError> = Vec::new();
        while rs.len() > 0
            invariant
                rs@.len() == cs@.len(),
                target == pod_failures(rs@, cs@) + back@.reverse(),
            decreases rs.len(),
        {
            let ghost r0 = rs@;
            let ghost c0 = cs@;
            let ghost b0 = back@;
            let r = rs.pop().unwrap();
            let c = cs.pop().unwrap();
            proof {
                assert(rs@ =~= r0.drop_last());
                assert(cs@ =~= c0.drop_last());
            }
            match r {
                Err(e) => {
                    back.push(e);
                    proof {
                        assert(back@.reverse() =~= seq![back@.last()] + b0.reverse());
                        assert(pod_failures(rs@, cs@) + back@.reverse() =~= pod_failures(rs@, cs@).push(back@.last()) + b0.reverse());
                    }
                },
                Ok(_) => match c {
                    Err(e) => {
                        back.push(e);
                        proof {
                            assert(back@.reverse() =~= seq![back@.last()] + b0.reverse());
                            assert(pod_failures(rs@, cs@) + back@.reverse() =~= pod_failures(rs@, cs@).push(back@.last()) + b0.reverse());
                        }
                    },
                    Ok(()) => {},
                },
            }
        }
        assert(target =~= back@.reverse());
        let mut out: Vec<SkateError> = Vec::new();
        while back.len() > 0
            invariant
                out@ + back@.reverse() == target,
            decreases back.len(),
        {
            let ghost b0 = back@;
            let e = back.pop().unwrap();
            proof {
                assert(back@ =~= b0.drop_last());
                assert(b0.reverse() =~= seq![b0.last()] + back@.reverse());
            }
            out.push(e);
            proof {
                assert(out@ + back@.reverse() =~= target);
            }
        }
        assert(out@ =~= target);
        if out.len() == 0 {
            Ok(())
        } else {
            Err(SkateError::Multi(out))
        }
    }
}

/// The failures of removing several pods, in order: a refused removal fails with its error and
/// no call; a planned one fails with what its call gave, where that failed.
pub open spec fn pod_failures(rs: Seq<Result<PodRemoval, SkateError>>, cs: Seq<Result<(), SkateError>>) -> Seq<SkateError>
    decreases rs.len(),
{
    if rs.len() == 0 || cs.len() == 0 {
        Seq::empty()
    } else {
        let rest = pod_failures(rs.drop_last(), cs.drop_last());
        match rs.last() {
            Err(e) => rest.push(e),
            Ok(_) => match cs.last() {
                Err(e) => rest.push(e),
                Ok(()) => rest,
            },
        }
    }
}

/// Removing several pods, one removal and one call for each, succeeds exactly when every
/// removal was planned and every call went through; otherwise the failures are one for each
/// pod that failed, in order, so none is lost.
pub proof fn lemma_pod_failures_none(rs: Seq<Result<PodRemoval, SkateError>>, cs: Seq<Result<(), SkateError>>)
    requires
        rs.len() == cs.len(),
    ensures
        pod_failures(rs, cs).len() == 0 <==> forall|i: int| 0 <= i < rs.len() ==> (#[trigger] rs[i]) is Ok && cs[i] is Ok,
        pod_failures(rs, cs).len() == rs.len() - count_ok(rs, cs),
    decreases rs.len(),
{
    if rs.len() > 0 {
        let (r0, c0) = (rs.drop_last(), cs.drop_last());
        lemma_pod_failures_none(r0, c0);
        lemma_count_ok_le(r0, c0);
        if pod_failures(rs, cs).len() == 0 {
            assert forall|i: int| 0 <= i < rs.len() implies (#[trigger] rs[i]) is Ok && cs[i] is Ok by {
                if i < rs.len() - 1 {
                    assert(r0[i] == rs[i] && c0[i] == cs[i]);
                }
            }
        } else if forall|i: int| 0 <= i < rs.len() ==> (#[trigger] rs[i]) is Ok && cs[i] is Ok {
            assert(rs[rs.len() - 1] is Ok && cs[cs.len() - 1] is Ok);
            assert forall|i: int| 0 <= i < r0.len() implies (#[trigger] r0[i]) is Ok && c0[i] is Ok by {
                assert(r0[i] == rs[i] && c0[i] == cs[i]);
            }
        }
    }
}

/// How many pods of a run both had their removal planned and their call go through.
pub open spec fn count_ok(rs: Seq<Result<PodRemoval, SkateError>>, cs: Seq<Result<(), SkateError>>) -> int
    decreases rs.len(),
{
    if rs.len() == 0 || cs.len() == 0 {
        0
    } else {
        count_ok(rs.drop_last(), cs.drop_last()) + if rs.last() is Ok && cs.last() is Ok { 1int } else { 0int }
    }
}

proof fn lemma_count_ok_le(rs: Seq<Result<PodRemoval, SkateError>>, cs: Seq<Result<(), SkateError>>)
    requires
        rs.len() == cs.len(),
    ensures
        0 <= count_ok(rs, cs) <= rs.len(),
    decreases rs.len(),
{
    if rs.len() > 0 {
        lemma_count_ok_le(rs.drop_last(), cs.drop_last());
    }
}

/// Keeps the cluster's secrets in podman.
#[derive(Debug)]
pub struct SecretController {}

impl SecretController {
    pub fn new() -> (res: SecretController) {
        SecretController {}
    }

    /// The arguments of `podman` that remove a secret, named `name.namespace`.
    pub fn delete_args(&self, name: &NamespacedName) -> (res: Vec<String>)
        ensures
            views(res@) == seq!["secret"@, "rm"@, ns_name_text(name.deep_view())],
    {
        let mut out: Vec<String> = Vec::new();
        out.push(owned("secret"));
        out.push(owned("rm"));
        out.push(name.to_string());
        assert(views(out@) =~= seq!["secret"@, "rm"@, ns_name_text(name.deep_view())]);
        out
    }
}

/// Applies and removes manifests on the node, each kind through its controller.
#[derive(Debug)]
pub struct DefaultExecutor {}

impl DefaultExecutor {
    pub fn new() -> (res: DefaultExecutor) {
        DefaultExecutor {}
    }
}

/// The systemd unit that keeps a service's virtual server up to date.
pub fn ipvsmon_unit(service: &str) -> (res: String)
    ensures
        res@ == "skate-ipvsmon-"@ + service@,
{
    join2("skate-ipvsmon-", service)
}

/// The cluster DNS name of a service.
pub fn service_domain(service: &str) -> (res: String)
    ensures
        res@ == service@ + ".svc.cluster.skate"@,
{
    join2(service, ".svc.cluster.skate")
}

/// The systemd units that run a cron job on the node: a service that starts the job and a
/// timer that fires on the job's schedule.
#[derive(Debug)]
pub struct CronUnits {
    /// `skate-cronjob-<name>.<namespace>`.
    pub unit_name: String,
    /// The service's description: `<name>.<namespace> Job`.
    pub service_description: String,
    /// The timer that starts the service: `<unit>.timer`.
    pub timer: String,
    /// The command the service runs.
    pub command: String,
    /// The timer's description: `<name>.<namespace> Timer`.
    pub timer_description: String,
    /// The unit the timer starts: `<unit>.service`.
    pub target_unit: String,
    /// When the timer fires, in systemd's calendar form.
    pub on_calendar: String,
}

/// The units of a cron job named `n` in namespace `ns` whose schedule reads `calendar` in
/// systemd's form.
pub open spec fn cron_units_spec(name: Seq<char>, ns: Seq<char>, calendar: Seq<char>) -> (Seq<char>, Seq<char>, Seq<char>, Seq<char>, Seq<char>, Seq<char>, Seq<char>) {
    let full = name + "."@ + ns;
    let unit = "skate-cronjob-"@ + full;
    (
        unit,
        full + " Job"@,
        unit + ".timer"@,
        "skatelet create --namespace "@ + ns + " job --from cronjob/"@ + name + " "@ + name + " -w"@,
        full + " Timer"@,
        unit + ".service"@,
        calendar,
    )
}

/// The systemd units of a cron job (see `cron_units_spec`); its schedule (empty where it has
/// no spec) must parse as a cron expression, and its time zone (none where missing) follows the
/// calendar.
pub fn cron_units(cron: &CronJob) -> (res: Result<CronUnits, SkateError>)
    ensures
        ({
            let n = metadata_name_spec(cron.metadata.deep_view());
            let schedule = match cron.spec { Some(s) => s.schedule@, None => Seq::empty() };
            let tz = match cron.spec { Some(s) => match s.time_zone { Some(t) => t@, None => Seq::empty() }, None => Seq::empty() };
            match cron_schedule_of("0 "@ + schedule) {
                Some(sch) => res matches Ok(u) && {
                    let e = cron_units_spec(n.name, n.namespace, trimmed(timer_text(sch, tz)));
                    &&& u.unit_name@ == e.0
                    &&& u.service_description@ == e.1
                    &&& u.timer@ == e.2
                    &&& u.command@ == e.3
                    &&& u.timer_description@ == e.4
                    &&& u.target_unit@ == e.5
                    &&& u.on_calendar@ == e.6
                },
                None => res is Err,
            }
        }),
{
    let n = metadata_name(&cron.metadata);
    let (schedule, tz) = match &cron.spec {
        Some(s) => (s.schedule.clone(), match &s.time_zone { Some(t) => t.clone(), None => String::new() }),
        None => (String::new(), String::new()),
    };
    proof {
        if cron.spec is None {
            reveal_strlit("");
        }
    }
    let calendar = cron_to_systemd(schedule.as_str(), tz.as_str())?;
    let full = n.to_string();
    let unit_name = join2("skate-cronjob-", full.as_str());
    let service_description = join2(full.as_str(), " Job");
    let timer = join2(unit_name.as_str(), ".timer");
    let mut command = owned("skatelet create --namespace ");
    command.append(n.namespace.as_str());
    command.append(" job --from cronjob/");
    command.append(n.name.as_str());
    command.append(" ");
    command.append(n.name.as_str());
    command.append(" -w");
    let timer_description = join2(full.as_str(), " Timer");
    let target_unit = join2(unit_name.as_str(), ".service");
    proof {
        assert(unit_name@ =~= "skate-cronjob-"@ + (n.name@ + "."@ + n.namespace@));
    }
    Ok(CronUnits { unit_name, service_description, timer, command, timer_description, target_unit, on_calendar: calendar })
}

/// One command the node agent runs, and whether a failure of it stops the work (otherwise it
/// is only logged).
#[derive(Debug)]
pub struct CommandStep {
    pub program: String,
    pub args: Vec<String>,
    pub must_succeed: bool,
}

/// Whether a step is `program` with `args` and the given failure policy.
pub open spec fn is_step(c: CommandStep, program: Seq<char>, args: Seq<Seq<char>>, must_succeed: bool) -> bool {
    c.program@ == program && views(c.args@) == args && c.must_succeed == must_succeed
}

fn step(program: &str, args: Vec<String>, must_succeed: bool) -> (res: CommandStep)
    ensures
        res.program@ == program@,
        res.args@ == args@,
        res.must_succeed == must_succeed,
{
    CommandStep { program: owned(program), args, must_succeed }
}

fn one(a: String) -> (res: Vec<String>)
    ensures
        views(res@) == seq![a@],
{
    let mut v = Vec::new();
    v.push(a);
    assert(views(v@) =~= seq![a@]);
    v
}

fn two(a: String, b: String) -> (res: Vec<String>)
    ensures
        views(res@) == seq![a@, b@],
{
    let mut v = Vec::new();
    v.push(a);
    v.push(b);
    assert(views(v@) =~= seq![a@, b@]);
    v
}

/// The commands that take a service off the node, in order, once its DNS entry is removed:
/// stop and disable its monitor unit, remove the unit's service and timer files and the
/// service's keepalived configuration (failures of these five are only logged), then reload
/// systemd and reset its failed units (failures of these two stop the removal). `name` is the
/// service's `name.namespace`.
pub fn service_delete_commands(name: &str, systemd_unit_path: &str, skate_var_path: &str) -> (res: Vec<CommandStep>)
    ensures
        res@.len() == 7,
        is_step(res@[0], "systemctl"@, seq!["stop"@, "skate-ipvsmon-"@ + name@], false),
        is_step(res@[1], "systemctl"@, seq!["disable"@, "skate-ipvsmon-"@ + name@], false),
        is_step(res@[2], "rm"@, seq![systemd_unit_path@ + "/skate-ipvsmon-"@ + name@ + ".service"@], false),
        is_step(res@[3], "rm"@, seq![systemd_unit_path@ + "/skate-ipvsmon-"@ + name@ + ".timer"@], false),
        is_step(res@[4], "rm"@, seq![skate_var_path@ + "/keepalived/"@ + name@ + ".conf"@], false),
        is_step(res@[5], "systemctl"@, seq!["daemon-reload"@], true),
        is_step(res@[6], "systemctl"@, seq!["reset-failed"@], true),
{
    let unit = ipvsmon_unit(name);
    let mut service_file = owned(systemd_unit_path);
    service_file.append("/");
    service_file.append(unit.as_str());
    service_file.append(".service");
    let mut timer_file = owned(systemd_unit_path);
    timer_file.append("/");
    timer_file.append(unit.as_str());
    timer_file.append(".timer");
    let mut conf = owned(skate_var_path);
    conf.append("/keepalived/");
    conf.append(name);
    conf.append(".conf");
    proof {
        reveal_strlit("/");
        assert(service_file@ =~= systemd_unit_path@ + "/skate-ipvsmon-"@ + name@ + ".service"@) by {
            reveal_strlit("/skate-ipvsmon-");
            reveal_strlit("skate-ipvsmon-");
        }
        assert(timer_file@ =~= systemd_unit_path@ + "/skate-ipvsmon-"@ + name@ + ".timer"@) by {
            reveal_strlit("/skate-ipvsmon-");
            reveal_strlit("skate-ipvsmon-");
        }
    }
    let mut steps: Vec<CommandStep> = Vec::new();
    steps.push(step("systemctl", two(owned("stop"), unit.clone()), false));
    steps.push(step("systemctl", two(owned("disable"), unit.clone()), false));
    steps.push(step("rm", one(service_file), false));
    steps.push(step("rm", one(timer_file), false));
    steps.push(step("rm", one(conf), false));
    steps.push(step("systemctl", one(owned("daemon-reload")), true));
    steps.push(step("systemctl", one(owned("reset-failed")), true));
    steps
}

/// The commands that put a cron job's timer to work once its unit files are written, in order:
/// reload systemd, enable and start the timer (failures of these three stop the work), then
/// reset the unit's failed state (a failure of this one is ignored). `unit_name` is the cron
/// job's unit (`CronUnits::unit_name`).
pub fn cron_activation_commands(unit_name: &str) -> (res: Vec<CommandStep>)
    ensures
        res@.len() == 4,
        is_step(res@[0], "systemctl"@, seq!["daemon-reload"@], true),
        is_step(res@[1], "systemctl"@, seq!["enable"@, unit_name@ + ".timer"@], true),
        is_step(res@[2], "systemctl"@, seq!["start"@, unit_name@ + ".timer"@], true),
        is_step(res@[3], "systemctl"@, seq!["reset-failed"@, unit_name@], false),
{
    let timer = join2(unit_name, ".timer");
    let mut steps: Vec<CommandStep> = Vec::new();
    steps.push(step("systemctl", one(owned("daemon-reload")), true));
    steps.push(step("systemctl", two(owned("enable"), timer.clone()), true));
    steps.push(step("systemctl", two(owned("start"), timer), true));
    steps.push(step("systemctl", two(owned("reset-failed"), owned(unit_name)), false));
    steps
}

/// How a run of steps ends, given the outcomes of the steps that ran, in order: the message of
/// the first failure of a step that must succeed (nothing after it runs), or `None` when the
/// run goes through.
pub open spec fn steps_verdict(steps: Seq<CommandStep>, outcomes: Seq<Result<(), String>>) -> Option<Seq<char>>
    decreases outcomes.len(),
{
    if outcomes.len() == 0 || steps.len() == 0 {
        None
    } else if steps[0].must_succeed && outcomes[0] is Err {
        Some(outcomes[0]->Err_0@)
    } else {
        steps_verdict(steps.drop_first(), outcomes.drop_first())
    }
}

/// Folds the outcomes of a run of steps into the run's result (see `steps_verdict`): the first
/// failure of a step that must succeed, or success.
pub fn run_outcome(steps: &Vec<CommandStep>, outcomes: Vec<Result<(), String>>) -> (res: Result<(), SkateError>)
    ensures
        steps_verdict(steps@, outcomes@) matches Some(m) ==> (res matches Err(e) && e.message() == m),
        steps_verdict(steps@, outcomes@) is None ==> res is Ok,
{
    let n = outcomes.len();
    let mut rest = outcomes;
    // reverse the outcomes so that each can be moved out from the front
    let mut rev: Vec<Result<(), String>> = Vec::new();
    while rest.len() > 0
        invariant
            rest@ + rev@.reverse() == outcomes@,
        decreases rest.len(),
    {
        let ghost before_rest = rest@;
        let ghost before_rev = rev@;
        let o = rest.pop().unwrap();
        rev.push(o);
        proof {
            assert(rest@ =~= before_rest.drop_last());
            assert(rev@.reverse() =~= seq![before_rest.last()] + before_rev.reverse());
            assert(rest@ + rev@.reverse() =~= before_rest + before_rev.reverse());
        }
    }
    assert(rev@.reverse() =~= outcomes@);
    assert(steps@.skip(0) =~= steps@);
    assert(outcomes@.skip(0) =~= outcomes@);
    let mut i: usize = 0;
    while rev.len() > 0
        invariant
            i + rev@.len() == n,
            i <= steps@.len(),
            n == outcomes@.len(),
            rev@.reverse() == outcomes@.skip(i as int),
            steps_verdict(steps@.skip(i as int), outcomes@.skip(i as int)) == steps_verdict(steps@, outcomes@),
        decreases rev.len(),
    {
        let ghost before_rev = rev@;
        let o = rev.pop().unwrap();
        proof {
            assert(before_rev.reverse()[0] == before_rev.last());
            assert(o == outcomes@.skip(i as int)[0]);
            assert(rev@ =~= before_rev.drop_last());
            assert(rev@.reverse() =~= outcomes@.skip(i as int).drop_first());
            assert(outcomes@.skip(i as int).drop_first() =~= outcomes@.skip(i + 1));
        }
        if i >= steps.len() {
            proof {
                assert(steps@.skip(i as int).len() == 0);
            }
            return Ok(());
        }
        proof {
            assert(steps@.skip(i as int)[0] == steps@[i as int]);
            assert(steps@.skip(i as int).drop_first() =~= steps@.skip(i + 1));
        }
        let r = step_outcome(&steps[i], o);
        if r.is_err() {
            return r;
        }
        i = i + 1;
    }
    proof {
        assert(outcomes@.skip(i as int).len() == 0);
    }
    Ok(())
}

/// Taking a service off a node fails only where reloading systemd or resetting its failed
/// units fails, whatever happens to the monitor unit and files before: the run of
/// `service_delete_commands` succeeds exactly when those two steps do, and otherwise ends with
/// the first of their failures.
pub proof fn lemma_service_delete_verdict(steps: Seq<CommandStep>, outcomes: Seq<Result<(), String>>)
    requires
        steps.len() == 7,
        outcomes.len() == 7,
        forall|i: int| 0 <= i < 5 ==> !(#[trigger] steps[i]).must_succeed,
        steps[5].must_succeed,
        steps[6].must_succeed,
    ensures
        steps_verdict(steps, outcomes) is None <==> (outcomes[5] is Ok && outcomes[6] is Ok),
        outcomes[5] is Err ==> steps_verdict(steps, outcomes) == Some(outcomes[5]->Err_0@),
        (outcomes[5] is Ok && outcomes[6] is Err) ==> steps_verdict(steps, outcomes) == Some(outcomes[6]->Err_0@),
{
    reveal_with_fuel(steps_verdict, 3);
    lemma_verdict_skips_optional(steps, outcomes, 5);
    let s5 = steps.skip(5);
    let o5 = outcomes.skip(5);
    assert(s5[0] == steps[5] && o5[0] == outcomes[5]);
    assert(s5.drop_first()[0] == steps[6] && o5.drop_first()[0] == outcomes[6]);
    assert(s5.drop_first().drop_first().len() == 0);
}

/// A cron job's timer is put to work exactly when reloading systemd and enabling and starting
/// the timer succeed; a failure to reset the unit's failed state is ignored.
pub proof fn lemma_cron_activation_verdict(steps: Seq<CommandStep>, outcomes: Seq<Result<(), String>>)
    requires
        steps.len() == 4,
        outcomes.len() == 4,
        forall|i: int| 0 <= i < 3 ==> (#[trigger] steps[i]).must_succeed,
        !steps[3].must_succeed,
    ensures
        steps_verdict(steps, outcomes) is None <==> (outcomes[0] is Ok && outcomes[1] is Ok && outcomes[2] is Ok),
{
    reveal_with_fuel(steps_verdict, 5);
    assert(steps[0].must_succeed && steps[1].must_succeed && steps[2].must_succeed);
    let s1 = steps.drop_first();
    let o1 = outcomes.drop_first();
    let s2 = s1.drop_first();
    let o2 = o1.drop_first();
    let s3 = s2.drop_first();
    let o3 = o2.drop_first();
    assert(s1[0] == steps[1] && o1[0] == outcomes[1]);
    assert(s2[0] == steps[2] && o2[0] == outcomes[2]);
    assert(s3[0] == steps[3] && o3[0] == outcomes[3]);
    assert(s3.drop_first().len() == 0 && o3.drop_first().len() == 0);
}

/// Steps that need not succeed do not change how a run ends.
proof fn lemma_verdict_skips_optional(steps: Seq<CommandStep>, outcomes: Seq<Result<(), String>>, k: int)
    requires
        0 <= k <= steps.len(),
        k <= outcomes.len(),
        forall|i: int| 0 <= i < k ==> !(#[trigger] steps[i]).must_succeed,
    ensures
        steps_verdict(steps, outcomes) == steps_verdict(steps.skip(k), outcomes.skip(k)),
    decreases k,
{
    if k > 0 {
        assert(!steps[0].must_succeed);
        let s = steps.drop_first();
        let o = outcomes.drop_first();
        assert forall|i: int| 0 <= i < k - 1 implies !(#[trigger] s[i]).must_succeed by {
            assert(s[i] == steps[i + 1]);
        }
        lemma_verdict_skips_optional(s, o, k - 1);
        assert(s.skip(k - 1) =~= steps.skip(k));
        assert(o.skip(k - 1) =~= outcomes.skip(k));
    } else {
        assert(steps.skip(0) =~= steps);
        assert(outcomes.skip(0) =~= outcomes);
    }
}

/// What one step's outcome means for the work: a failure of a step that must succeed stops it
/// with that failure; anything else lets it go on.
pub fn step_outcome(s: &CommandStep, outcome: Result<(), String>) -> (res: Result<(), SkateError>)
    ensures
        (s.must_succeed && outcome is Err) ==> (res matches Err(e) && e.message() == outcome->Err_0@),
        !(s.must_succeed && outcome is Err) ==> res is Ok,
{
    match outcome {
        Err(m) => if s.must_succeed { Err(SkateError::String(m)) } else { Ok(()) },
        Ok(()) => Ok(()),
    }
}

} // verus!
