//! The monitoring engine's decisions: which checks run and how often, how a
//! result moves the service's state, and what gets logged and alerted.

use vstd::prelude::*;
use crate::checks::CheckResult;
use crate::config::{
    confirming_run, initial_state, lemma_consecutive_failures, lemma_initial_state_valid,
    lemma_record_keeps_valid, next_state, period_open, recipients_of, result_notifications,
    run_results, notifies, record_overflows, AppConfig, ServiceState, ServiceStateView, ServiceView,
    Threshold,
};
use crate::registry::Registry;
use crate::text::{
    contains_char, decimal, decimal_string, remove_char, remove_char_str, remove_pat, remove_str,
    split_pat, split_str, split_words, starts_with, str_eq, str_starts_with, trim, trim_str,
    words,
};

verus! {

/// The configuration key of a check key: sub-item keys such as
/// `network_errors_eth0` or `disk_/` map to `network_errors` and `disk`.
pub open spec fn root_key_of(check_key: Seq<char>) -> Seq<char> {
    if starts_with(check_key, "network_errors"@) {
        "network_errors"@
    } else if starts_with(check_key, "tcp_states"@) {
        "tcp_states"@
    } else {
        split_pat(check_key, "_"@)[0]
    }
}

/// The configuration key of a check key.
pub fn root_key(check_key: &str) -> (r: String)
    ensures
        r@ == root_key_of(check_key@),
{
    if str_starts_with(check_key, "network_errors") {
        "network_errors".to_owned()
    } else if str_starts_with(check_key, "tcp_states") {
        "tcp_states".to_owned()
    } else {
        proof {
            reveal_strlit("_");
        }
        let pieces = split_str(check_key, "_");
        pieces[0].clone()
    }
}

/// The name a log line gives a check: the service description, followed by
/// the sub-item of a category such as `Disk Space (/)`.
pub open spec fn display_name_of(description: Seq<char>, category: Seq<char>) -> Seq<char> {
    let pieces = split_pat(category, " ("@);
    if category.contains('(') && pieces.len() > 1 {
        description + " ("@ + pieces[1]
    } else {
        description
    }
}

/// The name a log line gives a check.
pub fn display_name(description: &str, category: &str) -> (r: String)
    ensures
        r@ == display_name_of(description@, category@),
{
    if contains_char(category, '(') {
        proof {
            reveal_strlit(" (");
        }
        let pieces = split_str(category, " (");
        if pieces.len() > 1 {
            let mut r = description.to_owned();
            r.append(" (");
            r.append(pieces[1].as_str());
            return r;
        }
    }
    description.to_owned()
}

/// A message with its performance data appended after ` | `, if there is any.
pub open spec fn message_with_perf(message: Seq<char>, perf_data: Seq<char>) -> Seq<char> {
    if perf_data.len() == 0 {
        message
    } else {
        message + " | "@ + perf_data
    }
}

/// A message with its performance data appended.
pub fn append_perf(message: &str, perf_data: &str) -> (r: String)
    ensures
        r@ == message_with_perf(message@, perf_data@),
{
    let mut r = message.to_owned();
    if perf_data.unicode_len() > 0 {
        r.append(" | ");
        r.append(perf_data);
    }
    r
}

/// `<time> - SERVICE : <host>;<name>;<state>;<type>/<attempt>;<message>`.
pub open spec fn service_log_line(
    timestamp: Seq<char>,
    hostname: Seq<char>,
    display: Seq<char>,
    s: ServiceStateView,
    message: Seq<char>,
) -> Seq<char> {
    timestamp + " - SERVICE : "@ + hostname + ";"@ + display + ";"@ + s.current_state + ";"@
        + s.state_type + "/"@ + decimal(s.current_attempt as nat) + ";"@ + message + "\n"@
}

/// `<time> - [DEBUG] : <host>;<name>;<state>;Alert trigger bypassed (...)`.
pub open spec fn debug_log_line(
    timestamp: Seq<char>,
    hostname: Seq<char>,
    display: Seq<char>,
    state: Seq<char>,
) -> Seq<char> {
    timestamp + " - [DEBUG] : "@ + hostname + ";"@ + display + ";"@ + state
        + ";Alert trigger bypassed (SMTP suppressed in debug mode)\n"@
}

/// `<time> - NOTIFICATION : <host>;<name>;<state>;<message>`.
pub open spec fn notification_log_line(
    timestamp: Seq<char>,
    hostname: Seq<char>,
    display: Seq<char>,
    state: Seq<char>,
    message: Seq<char>,
) -> Seq<char> {
    timestamp + " - NOTIFICATION : "@ + hostname + ";"@ + display + ";"@ + state + ";"@ + message
        + "\n"@
}

/// `<time> - ERROR : <host>;<name>;Notification failed to send: <error>`.
pub open spec fn error_log_line(
    timestamp: Seq<char>,
    hostname: Seq<char>,
    display: Seq<char>,
    error: Seq<char>,
) -> Seq<char> {
    timestamp + " - ERROR : "@ + hostname + ";"@ + display + ";Notification failed to send: "@
        + error + "\n"@
}

/// The log line of an alert that could not be delivered.
pub fn error_log(timestamp: &str, hostname: &str, display: &str, error: &str) -> (r: String)
    ensures
        r@ == error_log_line(timestamp@, hostname@, display@, error@),
{
    let mut r = timestamp.to_owned();
    r.append(" - ERROR : ");
    r.append(hostname);
    r.append(";");
    r.append(display);
    r.append(";Notification failed to send: ");
    r.append(error);
    r.append("\n");
    r
}

/// One status report of one tracked item.
pub struct Observation {
    pub check_key: String,
    pub category: String,
    pub status: String,
    pub message: String,
}

pub struct ObservationView {
    pub check_key: Seq<char>,
    pub category: Seq<char>,
    pub status: Seq<char>,
    pub message: Seq<char>,
}

impl View for Observation {
    type V = ObservationView;

    open spec fn view(&self) -> ObservationView {
        ObservationView {
            check_key: self.check_key@,
            category: self.category@,
            status: self.status@,
            message: self.message@,
        }
    }
}

/// A notification to deliver: the check, its display name, the confirmed
/// state, the message with its performance data, and the addresses of the
/// contacts that take it (one e-mail each).
pub struct AlertRequest {
    pub check_key: String,
    pub display_name: String,
    pub state: String,
    pub message: String,
    pub recipients: Vec<String>,
}

/// What a result asks the caller to do beyond writing the service log line.
pub enum Notification {
    /// No confirmed state changed.
    Silent,
    /// A confirmed state changed in debug mode: log this line, send nothing.
    Suppressed { log: String },
    /// A confirmed state changed: log this line and deliver the alert.
    Dispatch { log: String, alert: AlertRequest },
}

/// The outcome of recording one result.
pub struct TransitionReport {
    pub service_log: String,
    pub notification: Notification,
}

/// A check that can be scheduled: its display name, configuration key and
/// the interval it runs at when the configuration gives none.
pub struct CheckInfo {
    pub name: String,
    pub config_key: String,
    pub default_period: u64,
}

/// The engine's configuration, the checks it schedules and the state of
/// every item it tracks, keyed by check key.
pub struct SmithEngine {
    pub config: AppConfig,
    pub checks: Vec<CheckInfo>,
    pub states: Registry<ServiceState>,
}

/// The attempt limit of a service: its `check_attempts`, or 3.
pub open spec fn max_attempts_for(services: Map<Seq<char>, ServiceView>, root: Seq<char>) -> u32 {
    if services.contains_key(root) {
        services[root].check_attempts
    } else {
        3
    }
}

/// The description of a service: its `description`, or the key itself.
pub open spec fn description_for(services: Map<Seq<char>, ServiceView>, root: Seq<char>) -> Seq<
    char,
> {
    if services.contains_key(root) {
        services[root].description
    } else {
        root
    }
}

/// The tracker of an item before its next result: the stored one, or a
/// fresh one with the attempt limit of the item's service.
pub open spec fn tracker_before(
    states: Map<Seq<char>, ServiceStateView>,
    services: Map<Seq<char>, ServiceView>,
    check_key: Seq<char>,
) -> ServiceStateView {
    if states.contains_key(check_key) {
        states[check_key]
    } else {
        initial_state(max_attempts_for(services, root_key_of(check_key)))
    }
}

/// Every stored tracker is valid.
pub open spec fn all_valid(states: Map<Seq<char>, ServiceStateView>) -> bool {
    forall|k: Seq<char>| #[trigger] states.contains_key(k) ==> states[k].valid()
}

/// Every stored tracker keeps the attempt limit of its service.
pub open spec fn limits_kept(
    states: Map<Seq<char>, ServiceStateView>,
    services: Map<Seq<char>, ServiceView>,
) -> bool {
    forall|k: Seq<char>| #[trigger] states.contains_key(k) ==> states[k].max_attempts
        == max_attempts_for(services, root_key_of(k))
}

/// The trackers after one result `status` for `check_key`.
pub open spec fn record_on(
    states: Map<Seq<char>, ServiceStateView>,
    services: Map<Seq<char>, ServiceView>,
    check_key: Seq<char>,
    status: Seq<char>,
) -> Map<Seq<char>, ServiceStateView> {
    states.insert(check_key, next_state(tracker_before(states, services, check_key), status))
}

/// The trackers after the results `calls` (each a check key and a status),
/// in order.
pub open spec fn record_calls(
    states: Map<Seq<char>, ServiceStateView>,
    services: Map<Seq<char>, ServiceView>,
    calls: Seq<(Seq<char>, Seq<char>)>,
) -> Map<Seq<char>, ServiceStateView>
    decreases calls.len(),
{
    if calls.len() == 0 {
        states
    } else {
        record_on(
            record_calls(states, services, calls.drop_last()),
            services,
            calls.last().0,
            calls.last().1,
        )
    }
}

/// Results `statuses`, all for `check_key`.
pub open spec fn calls_for(check_key: Seq<char>, statuses: Seq<Seq<char>>) -> Seq<
    (Seq<char>, Seq<char>),
> {
    statuses.map_values(|st: Seq<char>| (check_key, st))
}

/// Any sequence of results, for any check keys, on trackers that are valid
/// and keep their services' limits: the trackers stay valid and keep their
/// limits (so each is SOFT or HARD at between 1 and `max(M, 2)` attempts for
/// its limit `M`, and at its confirmed state when HARD); a key that received
/// results is at the status of the last one; a key that received none is
/// unchanged.
pub proof fn lemma_calls_keep_trackers(
    states: Map<Seq<char>, ServiceStateView>,
    services: Map<Seq<char>, ServiceView>,
    calls: Seq<(Seq<char>, Seq<char>)>,
)
    requires
        all_valid(states),
        limits_kept(states, services),
    ensures
        ({
            let after = record_calls(states, services, calls);
            &&& all_valid(after)
            &&& limits_kept(after, services)
            &&& forall|i: int|
                0 <= i < calls.len() && (forall|j: int|
                    i < j < calls.len() ==> calls[j].0 != calls[i].0) ==> after.contains_key(
                    #[trigger] calls[i].0,
                ) && after[calls[i].0].current_state == calls[i].1
            &&& forall|k: Seq<char>|
                (forall|j: int| 0 <= j < calls.len() ==> calls[j].0 != k) ==> (
                #[trigger] after.contains_key(k) == states.contains_key(k) && (states.contains_key(
                    k,
                ) ==> after[k] == states[k]))
        }),
    decreases calls.len(),
{
    if calls.len() > 0 {
        let prefix = calls.drop_last();
        lemma_calls_keep_trackers(states, services, prefix);
        let p = record_calls(states, services, prefix);
        let k = calls.last().0;
        let st = calls.last().1;
        lemma_record_on(p, services, k, st);
        let after = record_calls(states, services, calls);
        assert(after == record_on(p, services, k, st));
        assert forall|i: int|
            0 <= i < calls.len() && (forall|j: int| i < j < calls.len() ==> calls[j].0 != calls[i].0)
            implies after.contains_key(#[trigger] calls[i].0) && after[calls[i].0].current_state
            == calls[i].1 by {
            if i < calls.len() - 1 {
                assert(calls[calls.len() - 1].0 != calls[i].0);
                assert(prefix[i] == calls[i]);
                assert forall|j: int| i < j < prefix.len() implies prefix[j].0 != prefix[i].0 by {
                    assert(prefix[j] == calls[j]);
                }
            }
        }
        assert forall|k2: Seq<char>|
            (forall|j: int| 0 <= j < calls.len() ==> calls[j].0 != k2) implies (
            #[trigger] after.contains_key(k2) == states.contains_key(k2) && (states.contains_key(k2)
                ==> after[k2] == states[k2])) by {
            assert(calls[calls.len() - 1].0 != k2);
            assert forall|j: int| 0 <= j < prefix.len() implies prefix[j].0 != k2 by {
                assert(prefix[j] == calls[j]);
            }
        }
    }
}

/// One result keeps trackers valid and within their limits, puts its key at
/// its status and leaves every other key unchanged.
pub proof fn lemma_record_on(
    states: Map<Seq<char>, ServiceStateView>,
    services: Map<Seq<char>, ServiceView>,
    check_key: Seq<char>,
    status: Seq<char>,
)
    requires
        all_valid(states),
        limits_kept(states, services),
    ensures
        ({
            let after = record_on(states, services, check_key, status);
            &&& all_valid(after)
            &&& limits_kept(after, services)
            &&& after.contains_key(check_key)
            &&& after[check_key].current_state == status
            &&& forall|k: Seq<char>| k != check_key ==> (#[trigger] after.contains_key(k)
                == states.contains_key(k) && (states.contains_key(k) ==> after[k] == states[k]))
        }),
{
    let before = tracker_before(states, services, check_key);
    lemma_initial_state_valid(max_attempts_for(services, root_key_of(check_key)));
    assert(before.valid());
    assert(before.max_attempts == max_attempts_for(services, root_key_of(check_key)));
    lemma_record_keeps_valid(before, status);
    let after = record_on(states, services, check_key, status);
    assert forall|k: Seq<char>| #[trigger] after.contains_key(k) implies after[k].valid() by {
        if k != check_key {
            assert(states.contains_key(k));
        }
    }
    assert forall|k: Seq<char>| #[trigger] after.contains_key(k) implies after[k].max_attempts
        == max_attempts_for(services, root_key_of(k)) by {
        if k != check_key {
            assert(states.contains_key(k));
        }
    }
}

/// The tracker of `check_key` after results `statuses` for it alone is the
/// tracker it had before, run through those results.
pub proof fn lemma_calls_for_one_key(
    states: Map<Seq<char>, ServiceStateView>,
    services: Map<Seq<char>, ServiceView>,
    check_key: Seq<char>,
    statuses: Seq<Seq<char>>,
)
    ensures
        tracker_before(record_calls(states, services, calls_for(check_key, statuses)), services, check_key)
            == run_results(tracker_before(states, services, check_key), statuses),
    decreases statuses.len(),
{
    let calls = calls_for(check_key, statuses);
    if statuses.len() > 0 {
        let prefix = statuses.drop_last();
        assert(calls.drop_last() =~= calls_for(check_key, prefix));
        lemma_calls_for_one_key(states, services, check_key, prefix);
    } else {
        assert(calls =~= Seq::<(Seq<char>, Seq<char>)>::empty());
    }
}

/// The README's law at the engine: after `OK` (or before any result), the
/// `check_attempts`-th consecutive problem result for a check key, whatever
/// the problem statuses, confirms the latest status HARD at that attempt;
/// that result notifies and none of the earlier ones does. (A notifying
/// call of `handle_state_transition` dispatches the alert outside debug
/// mode.) Fewer results leave the item SOFT, silently.
pub proof fn lemma_engine_consecutive_failures(
    states: Map<Seq<char>, ServiceStateView>,
    services: Map<Seq<char>, ServiceView>,
    check_key: Seq<char>,
    statuses: Seq<Seq<char>>,
)
    requires
        all_valid(states),
        limits_kept(states, services),
        tracker_before(states, services, check_key).current_state == "OK"@,
        1 <= statuses.len() <= confirming_run(max_attempts_for(services, root_key_of(check_key))),
        forall|i: int| 0 <= i < statuses.len() ==> #[trigger] statuses[i] != "OK"@,
    ensures
        ({
            let m = confirming_run(max_attempts_for(services, root_key_of(check_key)));
            let n = statuses.len();
            let s = record_calls(states, services, calls_for(check_key, statuses))[check_key];
            &&& s.current_state == statuses.last()
            &&& s.current_attempt == n
            &&& n < m ==> s.state_type == "SOFT"@
            &&& n == m ==> s.state_type == "HARD"@ && s.last_hard_state == statuses.last()
            &&& forall|i: int|
                0 <= i < n ==> (notifies(
                    tracker_before(
                        record_calls(states, services, calls_for(check_key, statuses.take(i))),
                        services,
                        check_key,
                    ),
                    #[trigger] statuses[i],
                ) <==> (i == n - 1 && n == m))
        }),
{
    let t0 = tracker_before(states, services, check_key);
    let limit = max_attempts_for(services, root_key_of(check_key));
    lemma_initial_state_valid(limit);
    assert(t0.valid() && t0.max_attempts == limit);
    let m = confirming_run(limit);
    let n = statuses.len();
    lemma_calls_for_one_key(states, services, check_key, statuses);
    let calls = calls_for(check_key, statuses);
    assert(calls.len() > 0 && calls.last().0 == check_key);
    assert(record_calls(states, services, calls).contains_key(check_key));
    assert(tracker_before(record_calls(states, services, calls), services, check_key)
        == record_calls(states, services, calls)[check_key]);
    lemma_consecutive_failures(t0, statuses);
    assert forall|i: int| 0 <= i < n implies (notifies(
        tracker_before(
            record_calls(states, services, calls_for(check_key, statuses.take(i))),
            services,
            check_key,
        ),
        #[trigger] statuses[i],
    ) <==> (i == n - 1 && n == m)) by {
        let pre = statuses.take(i);
        let upto = statuses.take(i + 1);
        lemma_calls_for_one_key(states, services, check_key, pre);
        assert(upto.drop_last() =~= pre);
        assert(upto.last() == statuses[i]);
        assert forall|j: int| 0 <= j < upto.len() implies #[trigger] upto[j] != "OK"@ by {
            assert(upto[j] == statuses[j]);
        }
        lemma_consecutive_failures(t0, upto);
        if i > 0 {
            assert forall|j: int| 0 <= j < pre.len() implies #[trigger] pre[j] != "OK"@ by {
                assert(pre[j] == statuses[j]);
            }
            lemma_consecutive_failures(t0, pre);
        } else {
            assert(pre.len() == 0);
            assert(result_notifications(t0, pre) == 0);
        }
    }
}

/// The reports a check result stands for: the result itself, or one per
/// sub-item with key `<check>_<item>` and category `<category> (<item>)`.
pub open spec fn observations_of(
    check_key: Seq<char>,
    category: Seq<char>,
    result: &CheckResult,
) -> Seq<ObservationView> {
    match result {
        CheckResult::Single { status, message } => seq![
            ObservationView {
                check_key: check_key,
                category: category,
                status: status@,
                message: message@,
            },
        ],
        CheckResult::Multi(items) => Seq::new(
            items.keys().len(),
            |i: int|
                ObservationView {
                    check_key: check_key + "_"@ + items.keys()[i],
                    category: category + " ("@ + items.keys()[i] + ")"@,
                    status: items.values()[i].0,
                    message: items.values()[i].1,
                },
        ),
    }
}

/// The reports a check result stands for, in order.
pub fn observations(check_key: &str, category: &str, result: &CheckResult) -> (r: Vec<
    Observation,
>)
    ensures
        r@.map_values(|o: Observation| o@) == observations_of(check_key@, category@, result),
{
    let mut r: Vec<Observation> = Vec::new();
    match result {
        CheckResult::Single { status, message } => {
            r.push(
                Observation {
                    check_key: check_key.to_owned(),
                    category: category.to_owned(),
                    status: status.clone(),
                    message: message.clone(),
                },
            );
            proof {
                assert(r@.map_values(|o: Observation| o@) =~= observations_of(
                    check_key@,
                    category@,
                    result,
                ));
            }
        },
        CheckResult::Multi(items) => {
            let n = items.len();
            let mut i: usize = 0;
            while i < n
                invariant
                    n == items.keys().len(),
                    n == items.values().len(),
                    i <= n,
                    r@.len() == i,
                    forall|j: int|
                        0 <= j < i ==> #[trigger] r@[j]@ == (ObservationView {
                            check_key: check_key@ + "_"@ + items.keys()[j],
                            category: category@ + " ("@ + items.keys()[j] + ")"@,
                            status: items.values()[j].0,
                            message: items.values()[j].1,
                        }),
                decreases n - i,
            {
                let item = items.key_at(i);
                let pair = items.value_at(i);
                let mut key = check_key.to_owned();
                key.append("_");
                key.append(item.as_str());
                let mut cat = category.to_owned();
                cat.append(" (");
                cat.append(item.as_str());
                cat.append(")");
                r.push(
                    Observation {
                        check_key: key,
                        category: cat,
                        status: pair.0.clone(),
                        message: pair.1.clone(),
                    },
                );
                i = i + 1;
            }
            proof {
                assert(r@.map_values(|o: Observation| o@) =~= observations_of(
                    check_key@,
                    category@,
                    result,
                ));
            }
        },
    }
    r
}

impl SmithEngine {
    /// Every tracked item keeps the attempt limit of its service (3 for an
    /// item of no configured service).
    pub open spec fn limits_configured(&self) -> bool {
        limits_kept(self.states.map(), self.config.services.map())
    }

    /// Every tracked item's state is valid.
    pub open spec fn states_valid(&self) -> bool {
        all_valid(self.states.map())
    }

    /// Whatever results an engine has recorded since it was made (each call
    /// of `handle_state_transition` keeps both invariants, and `new` sets
    /// them up), every tracked item is SOFT or HARD at between 1 and
    /// `max(M, 2)` attempts, where `M` is the attempt limit of its service
    /// (3 for none), and a HARD item is at its confirmed state.
    pub proof fn lemma_tracked_items(&self, k: Seq<char>)
        requires
            self.states_valid(),
            self.limits_configured(),
            self.states.map().contains_key(k),
        ensures
            ({
                let s = self.states.map()[k];
                let m = max_attempts_for(self.config.services.map(), root_key_of(k));
                &&& s.max_attempts == m
                &&& s.state_type == "SOFT"@ || s.state_type == "HARD"@
                &&& 1 <= s.current_attempt
                &&& s.current_attempt <= 2 || s.current_attempt <= m
                &&& s.state_type == "HARD"@ ==> s.last_hard_state == s.current_state
            }),
    {
    }

    /// An engine with no checks and no tracked items.
    pub fn new(config: AppConfig) -> (r: Self)
        ensures
            r.config == config,
            r.checks@.len() == 0,
            r.states.map() == Map::<Seq<char>, ServiceStateView>::empty(),
            r.states_valid(),
            r.limits_configured(),
    {
        SmithEngine { config, checks: Vec::new(), states: Registry::new() }
    }

    /// Schedules `check` when the configuration has an active service under
    /// its key; says whether it did.
    pub fn add_check(&mut self, check: CheckInfo) -> (added: bool)
        ensures
            added == (old(self).config.services.map().contains_key(check.config_key@)
                && old(self).config.services.map()[check.config_key@].active),
            final(self).checks@ == if added {
                old(self).checks@.push(check)
            } else {
                old(self).checks@
            },
            final(self).config == old(self).config,
            final(self).states == old(self).states,
    {
        let active = match self.config.services.get(check.config_key.as_str()) {
            Some(service) => service.active,
            None => false,
        };
        if active {
            self.checks.push(check);
        }
        active
    }

    /// How often a check runs and in which time period: the service's
    /// `check_interval` and `check_time_period`, else the check's default
    /// interval and `24x7`.
    pub fn schedule(&self, config_key: &str, default_period: u64) -> (r: (u64, String))
        ensures
            self.config.services.map().contains_key(config_key@) ==> r.0
                == self.config.services.map()[config_key@].check_interval && r.1@
                == self.config.services.map()[config_key@].check_time_period,
            !self.config.services.map().contains_key(config_key@) ==> r.0 == default_period
                && r.1@ == "24x7"@,
    {
        match self.config.services.get(config_key) {
            Some(service) => (service.check_interval, service.check_time_period.clone()),
            None => (default_period, "24x7".to_owned()),
        }
    }

    /// Whether checks may run in the named time period at minute `minute`
    /// of weekday `weekday` (`0` Sunday to `6` Saturday); a name that no
    /// time period has does not restrict.
    pub fn can_run(&self, time_period: &str, weekday: u8, minute: u32) -> (r: bool)
        ensures
            r == period_open(self.config.timeperiods.map(), time_period@, weekday, minute as int),
    {
        self.config.period_open_at(time_period, weekday, minute)
    }

    /// Whether recording `status` for `check_key` would overflow the
    /// item's attempt counter (never, while every stored state is valid).
    pub fn transition_overflows(&self, check_key: &str, status: &str) -> (r: bool)
        ensures
            r == record_overflows(
                tracker_before(self.states.map(), self.config.services.map(), check_key@),
                status@,
            ),
    {
        proof {
            reveal_strlit("SOFT");
            reveal_strlit("OK");
        }
        match self.states.get(check_key) {
            Some(state) => {
                let continues = str_eq(status, state.current_state.as_str()) || (!str_eq(
                    status,
                    "OK",
                ) && !str_eq(state.current_state.as_str(), "OK"));
                continues && str_eq(state.state_type.as_str(), "SOFT") && state.current_attempt
                    == u32::MAX
            },
            None => false,
        }
    }

    /// Records one result of one tracked item at minute `minute` of weekday
    /// `weekday`, with the performance data already rendered for it and the
    /// time stamp of the log lines.
    pub fn handle_state_transition(
        &mut self,
        check_key: &str,
        category: &str,
        status: &str,
        message: &str,
        perf_data: &str,
        timestamp: &str,
        weekday: u8,
        minute: u32,
    ) -> (r: TransitionReport)
        requires
            !record_overflows(
                tracker_before(old(self).states.map(), old(self).config.services.map(), check_key@),
                status@,
            ),
        ensures
            old(self).states_valid() ==> final(self).states_valid(),
            old(self).limits_configured() ==> final(self).limits_configured(),
            final(self).config == old(self).config,
            final(self).checks == old(self).checks,
            ({
                let services = old(self).config.services.map();
                let before = tracker_before(old(self).states.map(), services, check_key@);
                let after = next_state(before, status@);
                let root = root_key_of(check_key@);
                let display = display_name_of(description_for(services, root), category@);
                let text = message_with_perf(message@, perf_data@);
                let host = old(self).config.system.hostname@;
                &&& final(self).states.map() == record_on(
                    old(self).states.map(),
                    services,
                    check_key@,
                    status@,
                )
                &&& r.service_log@ == service_log_line(timestamp@, host, display, after, text)
                &&& match r.notification {
                    Notification::Silent => !notifies(before, status@),
                    Notification::Suppressed { log } => {
                        &&& notifies(before, status@)
                        &&& old(self).config.setting.debug
                        &&& log@ == debug_log_line(timestamp@, host, display, after.last_hard_state)
                    },
                    Notification::Dispatch { log, alert } => {
                        &&& notifies(before, status@)
                        &&& !old(self).config.setting.debug
                        &&& log@ == notification_log_line(
                            timestamp@,
                            host,
                            display,
                            after.last_hard_state,
                            text,
                        )
                        &&& alert.check_key@ == check_key@
                        &&& alert.display_name@ == display
                        &&& alert.state@ == after.last_hard_state
                        &&& alert.message@ == text
                        &&& alert.recipients.deep_view() == recipients_of(
                            old(self).config.contacts.values(),
                            old(self).config.timeperiods.map(),
                            after.last_hard_state,
                            weekday,
                            minute as int,
                        )
                    },
                }
            }),
    {
        let ghost old_states = self.states.map();
        let root = root_key(check_key);
        let max_attempts = match self.config.services.get(root.as_str()) {
            Some(service) => service.check_attempts,
            None => 3,
        };
        let mut state = match self.states.position(check_key) {
            Some(i) => {
                proof {
                    self.states.lemma_shape();
                    assert(self.states.keys().contains(check_key@));
                }
                self.states.replace_at(i, ServiceState::new(0))
            },
            None => {
                proof {
                    self.states.lemma_shape();
                }
                ServiceState::new(max_attempts)
            },
        };
        proof {
            assert(state@ == tracker_before(old_states, self.config.services.map(), check_key@));
            crate::config::lemma_initial_state_valid(max_attempts);
            if old(self).states_valid() {
                assert(state@.valid());
            }
            if state@.valid() {
                crate::config::lemma_record_keeps_valid(state@, status@);
            }
        }
        let notify = state.record_result(status);
        let current_state = state.current_state.clone();
        let state_type = state.state_type.clone();
        let attempt = state.current_attempt;
        let last_hard_state = state.last_hard_state.clone();
        self.states.insert(check_key.to_owned(), state);
        proof {
            assert(self.states.map() =~= old_states.insert(
                check_key@,
                next_state(tracker_before(old_states, self.config.services.map(), check_key@), status@),
            ));
        }
        let description = self.config.get_description(root.as_str());
        let display = display_name(description.as_str(), category);
        let text = append_perf(message, perf_data);
        let host = &self.config.system.hostname;
        let mut service_log = timestamp.to_owned();
        service_log.append(" - SERVICE : ");
        service_log.append(host.as_str());
        service_log.append(";");
        service_log.append(display.as_str());
        service_log.append(";");
        service_log.append(current_state.as_str());
        service_log.append(";");
        service_log.append(state_type.as_str());
        service_log.append("/");
        service_log.append(decimal_string(attempt as u64).as_str());
        service_log.append(";");
        service_log.append(text.as_str());
        service_log.append("\n");
        let notification = if !notify {
            Notification::Silent
        } else if self.config.setting.debug {
            let mut log = timestamp.to_owned();
            log.append(" - [DEBUG] : ");
            log.append(host.as_str());
            log.append(";");
            log.append(display.as_str());
            log.append(";");
            log.append(last_hard_state.as_str());
            log.append(";Alert trigger bypassed (SMTP suppressed in debug mode)\n");
            Notification::Suppressed { log }
        } else {
            let mut log = timestamp.to_owned();
            log.append(" - NOTIFICATION : ");
            log.append(host.as_str());
            log.append(";");
            log.append(display.as_str());
            log.append(";");
            log.append(last_hard_state.as_str());
            log.append(";");
            log.append(text.as_str());
            log.append("\n");
            let recipients = self.config.alert_recipients(last_hard_state.as_str(), weekday, minute);
            Notification::Dispatch {
                log,
                alert: AlertRequest {
                    check_key: check_key.to_owned(),
                    display_name: display,
                    state: last_hard_state,
                    message: text,
                    recipients,
                },
            }
        };
        TransitionReport { service_log, notification }
    }
}

} // verus!

verus! {

/// The numbers a result message carries for performance data, as the text
/// they are read from; turning them into numbers and rendering the data is
/// floating-point work left to the caller.
pub enum PerfValues {
    /// No performance data for this service or message.
    Nothing,
    /// `load1`, `load5`, `load15`.
    Load { one: String, five: String, fifteen: String },
    /// A percentage labelled with the service key: the first word after
    /// the `:`, without `%`.
    Percent { label: String, value: String },
    /// Used space or inodes; no word of the message carried a `%`.
    Utilization { used: Option<String> },
    /// Operations per second.
    Iops { total: String },
    /// Megabits per second.
    Throughput { total: String },
    /// Error and drop rates per second.
    NetworkErrors { errors: String, dropped: String },
    /// Clock offset in seconds.
    Offset { offset: String },
}

pub enum PerfValuesView {
    Nothing,
    Load { one: Seq<char>, five: Seq<char>, fifteen: Seq<char> },
    Percent { label: Seq<char>, value: Seq<char> },
    Utilization { used: Option<Seq<char>> },
    Iops { total: Seq<char> },
    Throughput { total: Seq<char> },
    NetworkErrors { errors: Seq<char>, dropped: Seq<char> },
    Offset { offset: Seq<char> },
}

impl View for PerfValues {
    type V = PerfValuesView;

    open spec fn view(&self) -> PerfValuesView {
        match self {
            PerfValues::Nothing => PerfValuesView::Nothing,
            PerfValues::Load { one, five, fifteen } => PerfValuesView::Load {
                one: one@,
                five: five@,
                fifteen: fifteen@,
            },
            PerfValues::Percent { label, value } => PerfValuesView::Percent {
                label: label@,
                value: value@,
            },
            PerfValues::Utilization { used } => PerfValuesView::Utilization {
                used: used.deep_view(),
            },
            PerfValues::Iops { total } => PerfValuesView::Iops { total: total@ },
            PerfValues::Throughput { total } => PerfValuesView::Throughput { total: total@ },
            PerfValues::NetworkErrors { errors, dropped } => PerfValuesView::NetworkErrors {
                errors: errors@,
                dropped: dropped@,
            },
            PerfValues::Offset { offset } => PerfValuesView::Offset { offset: offset@ },
        }
    }
}

/// The thresholds and numbers of one service's performance data.
pub struct PerfData {
    pub warning: Threshold,
    pub critical: Threshold,
    pub values: PerfValues,
}

/// Element `n` of `pieces`, or `fallback` where there is none.
pub open spec fn nth_or(pieces: Seq<Seq<char>>, n: int, fallback: Seq<char>) -> Seq<char> {
    if 0 <= n < pieces.len() {
        pieces[n]
    } else {
        fallback
    }
}

/// The first of `pieces` that holds `c`.
pub open spec fn first_holding(pieces: Seq<Seq<char>>, c: char) -> Option<Seq<char>>
    decreases pieces.len(),
{
    if pieces.len() == 0 {
        None
    } else if pieces[0].contains(c) {
        Some(pieces[0])
    } else {
        first_holding(pieces.drop_first(), c)
    }
}

/// The number after the `:` of one `label: number` part, trimmed.
pub open spec fn labelled_number(part: Seq<char>) -> Seq<char> {
    trim(nth_or(split_pat(part, ":"@), 1, "0"@))
}

/// The rate inside the parentheses of one `count (rate/s)` part.
pub open spec fn bracketed_rate(part: Seq<char>) -> Seq<char> {
    remove_pat(nth_or(split_pat(part, "("@), 1, "0"@), "/s)"@)
}

/// The performance numbers the message of service `key` carries.
pub open spec fn perf_values_of(key: Seq<char>, message: Seq<char>) -> PerfValuesView {
    if key == "load"@ {
        let parts = split_pat(message, ","@);
        if parts.len() >= 3 {
            PerfValuesView::Load {
                one: labelled_number(parts[0]),
                five: labelled_number(parts[1]),
                fifteen: labelled_number(parts[2]),
            }
        } else {
            PerfValuesView::Nothing
        }
    } else if key == "memory"@ || key == "swap"@ || key == "iowait"@ {
        let parts = split_pat(message, ":"@);
        if parts.len() > 1 {
            PerfValuesView::Percent {
                label: key,
                value: nth_or(words(remove_char(parts[1], '%')), 0, "0"@),
            }
        } else {
            PerfValuesView::Nothing
        }
    } else if key == "disk"@ || key == "inodes"@ {
        PerfValuesView::Utilization {
            used: match first_holding(words(message), '%') {
                Some(w) => Some(remove_char(w, '%')),
                None => None,
            },
        }
    } else if key == "iops"@ {
        PerfValuesView::Iops { total: nth_or(words(message), 2, "0"@) }
    } else if key == "network"@ {
        PerfValuesView::Throughput { total: nth_or(words(message), 1, "0"@) }
    } else if key == "network_errors"@ {
        let parts = split_pat(message, ","@);
        PerfValuesView::NetworkErrors {
            errors: bracketed_rate(parts[0]),
            dropped: bracketed_rate(nth_or(parts, 1, ""@)),
        }
    } else if key == "ntp"@ {
        PerfValuesView::Offset { offset: remove_char(nth_or(words(message), 1, "0"@), 's') }
    } else {
        PerfValuesView::Nothing
    }
}

/// Memory, swap and I/O wait report their percentage alike: for any message
/// with a `:`, each gives a percentage labelled with its own service key,
/// and all three read the same value from it.
pub proof fn lemma_utilization_services_alike(message: Seq<char>)
    requires
        message.contains(':'),
    ensures
        perf_values_of("memory"@, message) is Percent,
        perf_values_of("memory"@, message)->Percent_label == "memory"@,
        perf_values_of("swap"@, message) == (PerfValuesView::Percent {
            label: "swap"@,
            value: perf_values_of("memory"@, message)->Percent_value,
        }),
        perf_values_of("iowait"@, message) == (PerfValuesView::Percent {
            label: "iowait"@,
            value: perf_values_of("memory"@, message)->Percent_value,
        }),
{
    reveal_strlit("load");
    reveal_strlit("memory");
    reveal_strlit("swap");
    reveal_strlit("iowait");
    reveal_strlit(":");
    assert("load"@.len() == 4 && "memory"@.len() == 6 && "swap"@.len() == 4 && "iowait"@.len() == 6);
    assert("load"@[0] != "swap"@[0] && "memory"@[0] != "iowait"@[0]);
    assert(":"@ =~= seq![':']);
    crate::text::lemma_split_at_held_char(message, ':');
}

/// A utilization message `<label>: <n>%` (a label without `:`, then a
/// number without white space, `:` or `%`) gives memory, swap and I/O wait
/// the percentage `n`, labelled with the service key.
pub proof fn lemma_utilization_value(key: Seq<char>, label: Seq<char>, n: Seq<char>)
    requires
        key == "memory"@ || key == "swap"@ || key == "iowait"@,
        forall|i: int| 0 <= i < label.len() ==> label[i] != ':',
        n.len() > 0,
        forall|i: int|
            0 <= i < n.len() ==> n[i] != ':' && n[i] != '%' && !crate::text::is_ws(#[trigger] n[i]),
    ensures
        perf_values_of(key, label + ": "@ + n + "%"@) == (PerfValuesView::Percent {
            label: key,
            value: n,
        }),
{
    reveal_strlit("load");
    reveal_strlit("memory");
    reveal_strlit("swap");
    reveal_strlit("iowait");
    reveal_strlit(":");
    reveal_strlit(": ");
    reveal_strlit("%");
    reveal_strlit("0");
    assert("load"@.len() == 4 && "memory"@.len() == 6 && "swap"@.len() == 4 && "iowait"@.len() == 6);
    assert("load"@[0] != "swap"@[0] && "memory"@[0] != "iowait"@[0]);
    let message = label + ": "@ + n + "%"@;
    let rest = seq![' '] + n + seq!['%'];
    assert(message =~= label + seq![':'] + rest);
    assert(forall|i: int| 0 <= i < rest.len() ==> rest[i] != ':') by {
        assert forall|i: int| 0 <= i < rest.len() implies rest[i] != ':' by {
            if 1 <= i < rest.len() - 1 {
                assert(rest[i] == n[i - 1]);
            }
        }
    }
    crate::text::lemma_split_labelled(label, rest);
    assert(":"@ =~= seq![':']);
    let pct = crate::text::other_than('%');
    Seq::filter_distributes_over_add(seq![' '] + n, seq!['%'], pct);
    Seq::filter_distributes_over_add(seq![' '], n, pct);
    crate::text::lemma_remove_absent_char(seq![' '], '%');
    crate::text::lemma_remove_absent_char(n, '%');
    reveal_with_fuel(Seq::filter, 2);
    assert(seq!['%'].drop_last() =~= Seq::<char>::empty());
    assert(remove_char(seq!['%'], '%') =~= Seq::<char>::empty());
    assert(remove_char(rest, '%') =~= seq![' '] + n);
    crate::text::lemma_words_of_spaced_word(n);
}

/// Element `n` of `pieces`, or `fallback`.
fn nth_or_str(pieces: &Vec<String>, n: usize, fallback: &str) -> (r: String)
    ensures
        r@ == nth_or(pieces.deep_view(), n as int, fallback@),
{
    if n < pieces.len() {
        pieces[n].clone()
    } else {
        fallback.to_owned()
    }
}

/// The number after the `:` of one `label: number` part.
fn labelled_number_str(part: &str) -> (r: String)
    ensures
        r@ == labelled_number(part@),
{
    proof {
        reveal_strlit(":");
    }
    let pieces = split_str(part, ":");
    let number = nth_or_str(&pieces, 1, "0");
    trim_str(number.as_str())
}

/// The rate inside the parentheses of one `count (rate/s)` part.
fn bracketed_rate_str(part: &str) -> (r: String)
    ensures
        r@ == bracketed_rate(part@),
{
    proof {
        reveal_strlit("(");
        reveal_strlit("/s)");
    }
    let pieces = split_str(part, "(");
    let rate = nth_or_str(&pieces, 1, "0");
    remove_str(rate.as_str(), "/s)")
}

/// The first of `pieces` that holds `c`.
fn first_holding_str(pieces: &Vec<String>, c: char) -> (r: Option<String>)
    ensures
        r.deep_view() == first_holding(pieces.deep_view(), c),
{
    let n = pieces.len();
    let mut i: usize = 0;
    proof {
        assert(pieces.deep_view().skip(0) =~= pieces.deep_view());
    }
    while i < n
        invariant
            n == pieces@.len(),
            i <= n,
            first_holding(pieces.deep_view(), c) == first_holding(
                pieces.deep_view().skip(i as int),
                c,
            ),
        decreases n - i,
    {
        proof {
            let rest = pieces.deep_view().skip(i as int);
            assert(rest[0] == pieces@[i as int]@);
            assert(rest.drop_first() =~= pieces.deep_view().skip(i + 1));
        }
        if contains_char(pieces[i].as_str(), c) {
            return Some(pieces[i].clone());
        }
        i = i + 1;
    }
    proof {
        assert(pieces.deep_view().skip(i as int) =~= Seq::<Seq<char>>::empty());
    }
    None
}

impl SmithEngine {
    /// The thresholds of service `check_key` (zero where it has none) and
    /// the performance numbers its `message` carries.
    pub fn extract_perf_data(&self, check_key: &str, message: &str) -> (r: PerfData)
        ensures
            self.config.services.map().contains_key(check_key@) ==> r.warning
                == self.config.services.map()[check_key@].warning && r.critical
                == self.config.services.map()[check_key@].critical,
            !self.config.services.map().contains_key(check_key@) ==> r.warning.bits == 0
                && r.critical.bits == 0,
            r.values@ == perf_values_of(check_key@, message@),
    {
        let (warning, critical) = match self.config.services.get(check_key) {
            Some(service) => (service.warning, service.critical),
            None => (Threshold { bits: 0 }, Threshold { bits: 0 }),
        };
        proof {
            reveal_strlit(",");
            reveal_strlit(":");
        }
        let values = if str_eq(check_key, "load") {
            let parts = split_str(message, ",");
            if parts.len() >= 3 {
                PerfValues::Load {
                    one: labelled_number_str(parts[0].as_str()),
                    five: labelled_number_str(parts[1].as_str()),
                    fifteen: labelled_number_str(parts[2].as_str()),
                }
            } else {
                PerfValues::Nothing
            }
        } else if str_eq(check_key, "memory") || str_eq(check_key, "swap") || str_eq(
            check_key,
            "iowait",
        ) {
            let parts = split_str(message, ":");
            if parts.len() > 1 {
                let stripped = remove_char_str(parts[1].as_str(), '%');
                PerfValues::Percent {
                    label: check_key.to_owned(),
                    value: nth_or_str(&split_words(stripped.as_str()), 0, "0"),
                }
            } else {
                PerfValues::Nothing
            }
        } else if str_eq(check_key, "disk") || str_eq(check_key, "inodes") {
            let found = first_holding_str(&split_words(message), '%');
            PerfValues::Utilization {
                used: match found {
                    Some(w) => Some(remove_char_str(w.as_str(), '%')),
                    None => None,
                },
            }
        } else if str_eq(check_key, "iops") {
            PerfValues::Iops { total: nth_or_str(&split_words(message), 2, "0") }
        } else if str_eq(check_key, "network") {
            PerfValues::Throughput { total: nth_or_str(&split_words(message), 1, "0") }
        } else if str_eq(check_key, "network_errors") {
            let parts = split_str(message, ",");
            let second = nth_or_str(&parts, 1, "");
            PerfValues::NetworkErrors {
                errors: bracketed_rate_str(parts[0].as_str()),
                dropped: bracketed_rate_str(second.as_str()),
            }
        } else if str_eq(check_key, "ntp") {
            let offset = nth_or_str(&split_words(message), 1, "0");
            PerfValues::Offset { offset: remove_char_str(offset.as_str(), 's') }
        } else {
            PerfValues::Nothing
        };
        PerfData { warning, critical, values }
    }
}

} // verus!
