//! Configuration objects and the per-service state tracker.

use vstd::prelude::*;
use crate::registry::Registry;
use crate::text::{
    chars_of, clone_opt_string, digit_char, clone_strings, either, either_string, either_strings, pick, pick_string,
    str_eq,
};

verus! {

/// The label of a confirmed state.
pub open spec fn hard_label() -> Seq<char> {
    "HARD"@
}

/// The label of a state that is still being retried.
pub open spec fn soft_label() -> Seq<char> {
    "SOFT"@
}

/// The status a healthy service reports.
pub open spec fn ok_label() -> Seq<char> {
    "OK"@
}

/// The state tracker of one service (or one sub-item of a service):
/// `current_state; state_type/current_attempt` in the log line.
pub struct ServiceState {
    pub current_state: String,
    pub last_hard_state: String,
    pub state_type: String,
    pub current_attempt: u32,
    pub max_attempts: u32,
    pub is_hard_state: bool,
}

/// The mathematical value of a [`ServiceState`].
pub struct ServiceStateView {
    pub current_state: Seq<char>,
    pub last_hard_state: Seq<char>,
    pub state_type: Seq<char>,
    pub current_attempt: u32,
    pub max_attempts: u32,
    pub is_hard_state: bool,
}

impl View for ServiceState {
    type V = ServiceStateView;

    open spec fn view(&self) -> ServiceStateView {
        ServiceStateView {
            current_state: self.current_state@,
            last_hard_state: self.last_hard_state@,
            state_type: self.state_type@,
            current_attempt: self.current_attempt,
            max_attempts: self.max_attempts,
            is_hard_state: self.is_hard_state,
        }
    }
}

/// The tracker of a service that has not reported yet.
pub open spec fn initial_state(max_attempts: u32) -> ServiceStateView {
    ServiceStateView {
        current_state: ok_label(),
        last_hard_state: ok_label(),
        state_type: soft_label(),
        current_attempt: 1,
        max_attempts: max_attempts,
        is_hard_state: false,
    }
}

/// Whether `status` carries on the run of results of `s` rather than
/// starting a new one: the same status again, or one problem status after
/// another (`OK` being the only healthy status).
pub open spec fn continues_run(s: ServiceStateView, status: Seq<char>) -> bool {
    status == s.current_state || (status != ok_label() && s.current_state != ok_label())
}

/// Whether recording `status` on `s` would push the attempt counter past `u32::MAX`.
pub open spec fn record_overflows(s: ServiceStateView, status: Seq<char>) -> bool {
    continues_run(s, status) && s.state_type == soft_label() && s.current_attempt == u32::MAX
}

/// The tracker after one more check result with `status`.
///
/// Consecutive problem results count as attempts whatever their status: a
/// SOFT tracker counts one more attempt and becomes HARD, confirming the
/// latest status, once the attempts reach `max_attempts`; a HARD problem
/// that changes to another problem is confirmed at once. The same status
/// again while HARD changes nothing. A return to `OK` is confirmed at once.
/// A first problem after `OK` starts the count at 1, and is confirmed at once
/// only when `max_attempts <= 1`.
pub open spec fn next_state(s: ServiceStateView, status: Seq<char>) -> ServiceStateView {
    if status == s.current_state && s.state_type != soft_label() {
        s
    } else if status != s.current_state && status == ok_label() {
        ServiceStateView {
            current_state: status,
            state_type: hard_label(),
            current_attempt: 1,
            last_hard_state: ok_label(),
            ..s
        }
    } else if continues_run(s, status) {
        if s.state_type == soft_label() {
            let attempt = (s.current_attempt + 1) as u32;
            if attempt >= s.max_attempts {
                ServiceStateView {
                    current_state: status,
                    current_attempt: attempt,
                    state_type: hard_label(),
                    last_hard_state: status,
                    ..s
                }
            } else {
                ServiceStateView { current_state: status, current_attempt: attempt, ..s }
            }
        } else {
            ServiceStateView { current_state: status, last_hard_state: status, ..s }
        }
    } else if s.max_attempts <= 1 {
        ServiceStateView {
            current_state: status,
            state_type: hard_label(),
            current_attempt: 1,
            last_hard_state: status,
            ..s
        }
    } else {
        ServiceStateView {
            current_state: status,
            state_type: soft_label(),
            current_attempt: 1,
            ..s
        }
    }
}

/// Whether recording `status` on `s` raises a notification: a status newly
/// confirmed HARD that differs from the last confirmed one, or a recovery to
/// `OK` after a confirmed problem.
pub open spec fn notifies(s: ServiceStateView, status: Seq<char>) -> bool {
    if status == s.current_state && s.state_type != soft_label() {
        false
    } else if status != s.current_state && status == ok_label() {
        s.last_hard_state != ok_label()
    } else if continues_run(s, status) {
        if s.state_type == soft_label() {
            s.current_attempt + 1 >= s.max_attempts && status != s.last_hard_state
        } else {
            status != s.last_hard_state
        }
    } else {
        s.max_attempts <= 1
    }
}

impl ServiceState {
    /// A tracker that starts SOFT in `OK` at attempt 1.
    pub fn new(max_attempts: u32) -> (r: Self)
        ensures
            r@ == initial_state(max_attempts),
    {
        ServiceState {
            current_state: "OK".to_owned(),
            last_hard_state: "OK".to_owned(),
            state_type: "SOFT".to_owned(),
            current_attempt: 1,
            max_attempts,
            is_hard_state: false,
        }
    }

    /// Always true: reads `is_hard_state`, which no transition changes.
    pub fn verify_state_integrity(&self) -> (r: bool)
        ensures
            r,
    {
        self.is_hard_state || !self.is_hard_state
    }

    /// Records one check result and says whether it raises a notification.
    pub fn record_result(&mut self, status: &str) -> (notify: bool)
        requires
            !record_overflows(old(self)@, status@),
        ensures
            final(self)@ == next_state(old(self)@, status@),
            notify == notifies(old(self)@, status@),
    {
        let same = str_eq(status, self.current_state.as_str());
        let soft = str_eq(self.state_type.as_str(), "SOFT");
        let status_ok = str_eq(status, "OK");
        let current_ok = str_eq(self.current_state.as_str(), "OK");
        proof {
            reveal_strlit("SOFT");
            reveal_strlit("OK");
        }
        let mut notify = false;
        if same && !soft {
            return false;
        }
        if !same && status_ok {
            let was_hard_error = !str_eq(self.last_hard_state.as_str(), "OK");
            self.current_state = status.to_owned();
            self.state_type = "HARD".to_owned();
            self.current_attempt = 1;
            self.last_hard_state = "OK".to_owned();
            return was_hard_error;
        }
        if same || (!status_ok && !current_ok) {
            let confirms_new = !str_eq(status, self.last_hard_state.as_str());
            if soft {
                self.current_attempt = self.current_attempt + 1;
                self.current_state = status.to_owned();
                if self.current_attempt >= self.max_attempts {
                    self.state_type = "HARD".to_owned();
                    self.last_hard_state = status.to_owned();
                    notify = confirms_new;
                }
            } else {
                self.current_state = status.to_owned();
                self.last_hard_state = status.to_owned();
                notify = confirms_new;
            }
        } else {
            self.current_state = status.to_owned();
            self.state_type = "SOFT".to_owned();
            self.current_attempt = 1;
            if self.max_attempts <= 1 {
                self.state_type = "HARD".to_owned();
                self.last_hard_state = status.to_owned();
                notify = true;
            }
        }
        notify
    }
}

impl ServiceStateView {
    /// The shape every tracker keeps: a positive attempt count, a SOFT or
    /// HARD label, a HARD state equal to its last confirmed state with at
    /// most `max(max_attempts, 2)` attempts, a SOFT state below its attempt
    /// limit unless it is at its first attempt, single-attempt trackers always
    /// at their confirmed state, and a tracker at `OK` with `OK` confirmed.
    pub open spec fn valid(self) -> bool {
        &&& self.current_attempt >= 1
        &&& (self.state_type == soft_label() || self.state_type == hard_label())
        &&& self.state_type == hard_label() ==> self.last_hard_state == self.current_state
        &&& self.state_type == hard_label() ==> (self.current_attempt <= 2
            || self.current_attempt <= self.max_attempts)
        &&& self.state_type == soft_label() ==> (self.current_attempt == 1
            || self.current_attempt < self.max_attempts)
        &&& self.max_attempts <= 1 ==> self.last_hard_state == self.current_state
        &&& self.current_state == ok_label() ==> self.last_hard_state == ok_label()
    }
}

/// The tracker after `n` consecutive results with the same `status`.
pub open spec fn run_state(s: ServiceStateView, status: Seq<char>, n: nat) -> ServiceStateView
    decreases n,
{
    if n == 0 {
        s
    } else {
        next_state(run_state(s, status, (n - 1) as nat), status)
    }
}

/// How many notifications `n` consecutive results with the same `status` raise.
pub open spec fn run_notifications(s: ServiceStateView, status: Seq<char>, n: nat) -> nat
    decreases n,
{
    if n == 0 {
        0
    } else {
        run_notifications(s, status, (n - 1) as nat) + if notifies(
            run_state(s, status, (n - 1) as nat),
            status,
        ) {
            1nat
        } else {
            0nat
        }
    }
}

proof fn lemma_labels_distinct()
    ensures
        soft_label() != hard_label(),
        ok_label() != soft_label(),
        ok_label() != hard_label(),
{
    reveal_strlit("SOFT");
    reveal_strlit("HARD");
    reveal_strlit("OK");
    assert(soft_label()[0] != hard_label()[0]);
    assert(ok_label().len() != soft_label().len());
    assert(ok_label().len() != hard_label().len());
}

/// A fresh tracker is valid.
pub proof fn lemma_initial_state_valid(max_attempts: u32)
    ensures
        initial_state(max_attempts).valid(),
{
    lemma_labels_distinct();
}

/// Recording any status keeps a tracker valid, never overflows its attempt
/// counter, leaves its attempt limit unchanged and makes the status the
/// current one.
pub proof fn lemma_record_keeps_valid(s: ServiceStateView, status: Seq<char>)
    requires
        s.valid(),
    ensures
        !record_overflows(s, status),
        next_state(s, status).valid(),
        next_state(s, status).max_attempts == s.max_attempts,
        next_state(s, status).current_state == status,
{
    lemma_labels_distinct();
}

/// On a valid tracker a result raises a notification exactly when it
/// changes the last confirmed (HARD) state.
pub proof fn lemma_notify_iff_confirmed_state_changes(s: ServiceStateView, status: Seq<char>)
    requires
        s.valid(),
    ensures
        notifies(s, status) <==> next_state(s, status).last_hard_state != s.last_hard_state,
{
    lemma_labels_distinct();
}

proof fn lemma_run_shape(s: ServiceStateView, status: Seq<char>, k: nat)
    requires
        s.valid(),
        k >= 1,
    ensures
        ({
            let r = run_state(s, status, k);
            &&& r.valid()
            &&& r.current_state == status
            &&& r.max_attempts == s.max_attempts
            &&& r.state_type == soft_label() ==> r.current_attempt >= k
            &&& r.max_attempts <= 1 ==> r.state_type == hard_label()
            &&& (r.last_hard_state == s.last_hard_state || r.last_hard_state == status)
            &&& run_notifications(s, status, k) == if r.last_hard_state == s.last_hard_state {
                0nat
            } else {
                1nat
            }
        }),
    decreases k,
{
    lemma_labels_distinct();
    let k1 = (k - 1) as nat;
    let p = run_state(s, status, k1);
    assert(run_state(s, status, k) == next_state(p, status));
    assert(run_notifications(s, status, k) == run_notifications(s, status, k1) + if notifies(
        p,
        status,
    ) {
        1nat
    } else {
        0nat
    });
    if k == 1 {
        assert(p == s);
        assert(run_notifications(s, status, k1) == 0);
        lemma_record_keeps_valid(s, status);
        lemma_notify_iff_confirmed_state_changes(s, status);
    } else {
        lemma_run_shape(s, status, k1);
        lemma_record_keeps_valid(p, status);
        lemma_notify_iff_confirmed_state_changes(p, status);
    }
}

/// After `check_attempts` (or more) consecutive identical results the state
/// is confirmed HARD at that status, and the run raised exactly one
/// notification when that status was not already the confirmed one, none
/// otherwise.
pub proof fn lemma_confirmed_after_max_attempts(s: ServiceStateView, status: Seq<char>, n: nat)
    requires
        s.valid(),
        1 <= s.max_attempts,
        s.max_attempts <= n,
    ensures
        run_state(s, status, n).state_type == hard_label(),
        run_state(s, status, n).current_state == status,
        run_state(s, status, n).last_hard_state == status,
        run_notifications(s, status, n) == if s.last_hard_state == status {
            0nat
        } else {
            1nat
        },
{
    lemma_run_shape(s, status, n);
}

/// The tracker after the results `statuses`, in order.
pub open spec fn run_results(s: ServiceStateView, statuses: Seq<Seq<char>>) -> ServiceStateView
    decreases statuses.len(),
{
    if statuses.len() == 0 {
        s
    } else {
        next_state(run_results(s, statuses.drop_last()), statuses.last())
    }
}

/// How many notifications the results `statuses` raise, in order.
pub open spec fn result_notifications(s: ServiceStateView, statuses: Seq<Seq<char>>) -> nat
    decreases statuses.len(),
{
    if statuses.len() == 0 {
        0
    } else {
        result_notifications(s, statuses.drop_last()) + if notifies(
            run_results(s, statuses.drop_last()),
            statuses.last(),
        ) {
            1nat
        } else {
            0nat
        }
    }
}

/// The number of consecutive problem results that confirms a problem:
/// `max_attempts`, and at least one.
pub open spec fn confirming_run(max_attempts: u32) -> nat {
    if max_attempts <= 1 {
        1
    } else {
        max_attempts as nat
    }
}

/// Consecutive problem results after `OK`, whatever their statuses, are
/// counted as attempts: fewer than `max_attempts` of them leave the tracker
/// SOFT at that attempt, silently; the `max_attempts`-th (the first, when
/// `max_attempts <= 1`) confirms the latest status HARD and raises exactly
/// one notification.
pub proof fn lemma_consecutive_failures(s: ServiceStateView, statuses: Seq<Seq<char>>)
    requires
        s.valid(),
        s.current_state == ok_label(),
        1 <= statuses.len() <= confirming_run(s.max_attempts),
        forall|i: int| 0 <= i < statuses.len() ==> #[trigger] statuses[i] != ok_label(),
    ensures
        ({
            let r = run_results(s, statuses);
            &&& r.valid()
            &&& r.max_attempts == s.max_attempts
            &&& r.current_state == statuses.last()
            &&& r.current_attempt == statuses.len()
            &&& statuses.len() < confirming_run(s.max_attempts) ==> {
                &&& r.state_type == soft_label()
                &&& r.last_hard_state == ok_label()
                &&& result_notifications(s, statuses) == 0
            }
            &&& statuses.len() == confirming_run(s.max_attempts) ==> {
                &&& r.state_type == hard_label()
                &&& r.last_hard_state == statuses.last()
                &&& result_notifications(s, statuses) == 1
            }
        }),
    decreases statuses.len(),
{
    lemma_labels_distinct();
    let prefix = statuses.drop_last();
    let p = run_results(s, prefix);
    assert(statuses.last() == statuses[statuses.len() - 1]);
    if statuses.len() == 1 {
        assert(prefix.len() == 0);
        assert(p == s);
        assert(result_notifications(s, prefix) == 0);
        lemma_record_keeps_valid(s, statuses.last());
    } else {
        assert forall|i: int| 0 <= i < prefix.len() implies #[trigger] prefix[i] != ok_label() by {
            assert(prefix[i] == statuses[i]);
        }
        lemma_consecutive_failures(s, prefix);
        assert(prefix.last() == statuses[statuses.len() - 2]);
        lemma_record_keeps_valid(p, statuses.last());
    }
}

/// A return to `OK` from any other status is confirmed HARD at once, and
/// raises a recovery notification exactly when the last confirmed state was
/// a problem.
pub proof fn lemma_recovery(s: ServiceStateView)
    requires
        s.valid(),
        s.current_state != ok_label(),
    ensures
        next_state(s, ok_label()).state_type == hard_label(),
        next_state(s, ok_label()).current_state == ok_label(),
        next_state(s, ok_label()).last_hard_state == ok_label(),
        next_state(s, ok_label()).current_attempt == 1,
        notifies(s, ok_label()) <==> s.last_hard_state != ok_label(),
{
}

} // verus!

verus! {

/// The value an omitted `register` key takes: an entry is enrolled unless it
/// says it is a template.
pub fn default_register() -> (r: bool)
    ensures
        r,
{
    true
}

/// A warning or critical threshold, held as the IEEE-754 bit pattern of the
/// `f64` the configuration gives; resolution only selects thresholds, and the
/// checks that compare measurements with them turn them back into `f64`.
#[derive(Clone, Copy, PartialEq, Eq, Structural)]
pub struct Threshold {
    pub bits: u64,
}

/// `80.0`, the warning threshold of a service that names none.
pub open spec fn default_warning() -> Threshold {
    Threshold { bits: 0x4054_0000_0000_0000 }
}

/// `90.0`, the critical threshold of a service that names none.
pub open spec fn default_critical() -> Threshold {
    Threshold { bits: 0x4056_8000_0000_0000 }
}

/// Global agent settings.
pub struct RawSettingConfig {
    pub log_file_path: String,
    pub pid_file_path: String,
    pub debug: bool,
}

pub struct SettingView {
    pub log_file_path: Seq<char>,
    pub pid_file_path: Seq<char>,
    pub debug: bool,
}

impl View for RawSettingConfig {
    type V = SettingView;

    open spec fn view(&self) -> SettingView {
        SettingView {
            log_file_path: self.log_file_path@,
            pid_file_path: self.pid_file_path@,
            debug: self.debug,
        }
    }
}

/// Identity of the monitored host.
pub struct RawSystemConfig {
    pub hostname: String,
}

impl View for RawSystemConfig {
    type V = Seq<char>;

    open spec fn view(&self) -> Seq<char> {
        self.hostname@
    }
}

/// SMTP gateway settings.
pub struct RawEmailConfig {
    pub smtp_server: String,
    pub smtp_port: u16,
    pub sender_email: String,
    pub smtp_username: Option<String>,
    pub smtp_password: Option<String>,
}

pub struct EmailView {
    pub smtp_server: Seq<char>,
    pub smtp_port: u16,
    pub sender_email: Seq<char>,
    pub smtp_username: Option<Seq<char>>,
    pub smtp_password: Option<Seq<char>>,
}

impl View for RawEmailConfig {
    type V = EmailView;

    open spec fn view(&self) -> EmailView {
        EmailView {
            smtp_server: self.smtp_server@,
            smtp_port: self.smtp_port,
            sender_email: self.sender_email@,
            smtp_username: self.smtp_username.deep_view(),
            smtp_password: self.smtp_password.deep_view(),
        }
    }
}

/// A time period as written, possibly a template or inheriting from one.
pub struct RawTimePeriodConfig {
    pub name: String,
    pub register: bool,
    pub use_template: Option<String>,
    pub alias: Option<String>,
    pub sunday: Option<String>,
    pub monday: Option<String>,
    pub tuesday: Option<String>,
    pub wednesday: Option<String>,
    pub thursday: Option<String>,
    pub friday: Option<String>,
    pub saturday: Option<String>,
}

pub struct RawTimePeriodView {
    pub name: Seq<char>,
    pub register: bool,
    pub use_template: Option<Seq<char>>,
    pub alias: Option<Seq<char>>,
    pub sunday: Option<Seq<char>>,
    pub monday: Option<Seq<char>>,
    pub tuesday: Option<Seq<char>>,
    pub wednesday: Option<Seq<char>>,
    pub thursday: Option<Seq<char>>,
    pub friday: Option<Seq<char>>,
    pub saturday: Option<Seq<char>>,
}

impl View for RawTimePeriodConfig {
    type V = RawTimePeriodView;

    open spec fn view(&self) -> RawTimePeriodView {
        RawTimePeriodView {
            name: self.name@,
            register: self.register,
            use_template: self.use_template.deep_view(),
            alias: self.alias.deep_view(),
            sunday: self.sunday.deep_view(),
            monday: self.monday.deep_view(),
            tuesday: self.tuesday.deep_view(),
            wednesday: self.wednesday.deep_view(),
            thursday: self.thursday.deep_view(),
            friday: self.friday.deep_view(),
            saturday: self.saturday.deep_view(),
        }
    }
}

/// A contact as written, possibly a template or inheriting from one.
pub struct RawContactConfig {
    pub name: String,
    pub register: bool,
    pub use_template: Option<String>,
    pub alias: Option<String>,
    pub email: Option<String>,
    pub notification_period: Option<String>,
    pub notification_options: Option<Vec<String>>,
}

pub struct RawContactView {
    pub name: Seq<char>,
    pub register: bool,
    pub use_template: Option<Seq<char>>,
    pub alias: Option<Seq<char>>,
    pub email: Option<Seq<char>>,
    pub notification_period: Option<Seq<char>>,
    pub notification_options: Option<Seq<Seq<char>>>,
}

impl View for RawContactConfig {
    type V = RawContactView;

    open spec fn view(&self) -> RawContactView {
        RawContactView {
            name: self.name@,
            register: self.register,
            use_template: self.use_template.deep_view(),
            alias: self.alias.deep_view(),
            email: self.email.deep_view(),
            notification_period: self.notification_period.deep_view(),
            notification_options: self.notification_options.deep_view(),
        }
    }
}

/// A service as written, possibly a template or inheriting from one.
pub struct RawServiceConfig {
    pub name: String,
    pub register: bool,
    pub use_template: Option<String>,
    pub description: Option<String>,
    pub active: Option<bool>,
    pub check_interval: Option<u64>,
    pub check_attempts: Option<u32>,
    pub check_time_period: Option<String>,
    pub warning: Option<Threshold>,
    pub critical: Option<Threshold>,
    pub disks: Option<Vec<String>>,
    pub interfaces: Option<Vec<String>>,
    pub ntp_pool_server: Option<String>,
}

pub struct RawServiceView {
    pub name: Seq<char>,
    pub register: bool,
    pub use_template: Option<Seq<char>>,
    pub description: Option<Seq<char>>,
    pub active: Option<bool>,
    pub check_interval: Option<u64>,
    pub check_attempts: Option<u32>,
    pub check_time_period: Option<Seq<char>>,
    pub warning: Option<Threshold>,
    pub critical: Option<Threshold>,
    pub disks: Option<Seq<Seq<char>>>,
    pub interfaces: Option<Seq<Seq<char>>>,
    pub ntp_pool_server: Option<Seq<char>>,
}

impl View for RawServiceConfig {
    type V = RawServiceView;

    open spec fn view(&self) -> RawServiceView {
        RawServiceView {
            name: self.name@,
            register: self.register,
            use_template: self.use_template.deep_view(),
            description: self.description.deep_view(),
            active: self.active,
            check_interval: self.check_interval,
            check_attempts: self.check_attempts,
            check_time_period: self.check_time_period.deep_view(),
            warning: self.warning,
            critical: self.critical,
            disks: self.disks.deep_view(),
            interfaces: self.interfaces.deep_view(),
            ntp_pool_server: self.ntp_pool_server.deep_view(),
        }
    }
}

/// The configuration file as parsed, before template resolution.
pub struct AppConfigBrute {
    pub setting: RawSettingConfig,
    pub system: RawSystemConfig,
    pub email: RawEmailConfig,
    pub timeperiods: Vec<RawTimePeriodConfig>,
    pub contacts: Vec<RawContactConfig>,
    pub services: Vec<RawServiceConfig>,
}

/// A resolved time period.
pub struct TimePeriodConfig {
    pub name: String,
    pub alias: String,
    pub sunday: String,
    pub monday: String,
    pub tuesday: String,
    pub wednesday: String,
    pub thursday: String,
    pub friday: String,
    pub saturday: String,
}

pub struct TimePeriodView {
    pub name: Seq<char>,
    pub alias: Seq<char>,
    pub sunday: Seq<char>,
    pub monday: Seq<char>,
    pub tuesday: Seq<char>,
    pub wednesday: Seq<char>,
    pub thursday: Seq<char>,
    pub friday: Seq<char>,
    pub saturday: Seq<char>,
}

impl View for TimePeriodConfig {
    type V = TimePeriodView;

    open spec fn view(&self) -> TimePeriodView {
        TimePeriodView {
            name: self.name@,
            alias: self.alias@,
            sunday: self.sunday@,
            monday: self.monday@,
            tuesday: self.tuesday@,
            wednesday: self.wednesday@,
            thursday: self.thursday@,
            friday: self.friday@,
            saturday: self.saturday@,
        }
    }
}

/// Whether `c` is an ASCII digit.
pub open spec fn is_digit(c: char) -> bool {
    '0' <= c <= '9'
}

/// The value of ASCII digit `c`.
pub open spec fn digit_value(c: char) -> int {
    c as int - 48
}

/// The minutes after midnight that `HH:MM` denotes: two digits of hours,
/// `:`, two digits of minutes below 60, at most `24:00`.
pub open spec fn clock_minutes(t: Seq<char>) -> Option<int> {
    if t.len() == 5 && is_digit(t[0]) && is_digit(t[1]) && t[2] == ':' && is_digit(t[3])
        && is_digit(t[4]) {
        let hours = digit_value(t[0]) * 10 + digit_value(t[1]);
        let minutes = digit_value(t[3]) * 10 + digit_value(t[4]);
        if minutes < 60 && hours * 60 + minutes <= 1440 {
            Some(hours * 60 + minutes)
        } else {
            None
        }
    } else {
        None
    }
}

/// Whether the window `HH:MM-HH:MM` holds the minute `minute` after
/// midnight: its start is at or before it and its end after it, so
/// `00:00-24:00` is the whole day and `00:00-00:00` no time at all. Text of
/// any other form is a window that holds no minute.
pub open spec fn window_contains(window: Seq<char>, minute: int) -> bool {
    window.len() == 11 && window[5] == '-' && match (
        clock_minutes(window.subrange(0, 5)),
        clock_minutes(window.subrange(6, 11)),
    ) {
        (Some(start), Some(end)) => start <= minute < end,
        _ => false,
    }
}

/// The window a time period sets for a weekday, `0` being Sunday and `6`
/// Saturday; no other weekday has a window.
pub open spec fn day_window(p: TimePeriodView, weekday: u8) -> Seq<char> {
    if weekday == 0 {
        p.sunday
    } else if weekday == 1 {
        p.monday
    } else if weekday == 2 {
        p.tuesday
    } else if weekday == 3 {
        p.wednesday
    } else if weekday == 4 {
        p.thursday
    } else if weekday == 5 {
        p.friday
    } else if weekday == 6 {
        p.saturday
    } else {
        Seq::empty()
    }
}

/// The two-digit decimal notation of `n` (below 100), with a leading zero.
pub open spec fn two_digits(n: nat) -> Seq<char> {
    seq![digit_char(n / 10), digit_char(n % 10)]
}

/// The `HH:MM` notation of the minute `minute` after midnight.
pub open spec fn clock_text(minute: nat) -> Seq<char> {
    two_digits(minute / 60) + ":"@ + two_digits(minute % 60)
}

proof fn lemma_digit_char_value(d: nat)
    requires
        d < 10,
    ensures
        is_digit(digit_char(d)),
        digit_value(digit_char(d)) == d,
{
    assert(((d + 48) as char) as int == d + 48);
}

/// `HH:MM` reads back as the minute it was written for: every minute of the
/// day, `24:00` included, written with two digits of hours and two of
/// minutes, is read as `60 * HH + MM`.
pub proof fn lemma_clock_text_reads_back(minute: nat)
    requires
        minute <= 1440,
    ensures
        clock_minutes(clock_text(minute)) == Some(minute as int),
{
    reveal_strlit(":");
    let h = minute / 60;
    let m = minute % 60;
    let t = clock_text(minute);
    assert(h <= 24 && m < 60);
    assert(h / 10 < 10 && h % 10 < 10 && m / 10 < 10 && m % 10 < 10);
    lemma_digit_char_value(h / 10);
    lemma_digit_char_value(h % 10);
    lemma_digit_char_value(m / 10);
    lemma_digit_char_value(m % 10);
    assert(t.len() == 5);
    assert(t[0] == digit_char(h / 10) && t[1] == digit_char(h % 10) && t[2] == ':');
    assert(t[3] == digit_char(m / 10) && t[4] == digit_char(m % 10));
    assert((h / 10) * 10 + h % 10 == h);
    assert((m / 10) * 10 + m % 10 == m);
    assert(h * 60 + m == minute);
}

/// A window written `HH:MM-HH:MM` from a start and an end minute holds
/// exactly the minutes from the start up to, not including, the end.
pub proof fn lemma_window_holds_its_minutes(start: nat, end: nat, minute: int)
    requires
        start <= 1440,
        end <= 1440,
    ensures
        window_contains(clock_text(start) + "-"@ + clock_text(end), minute) <==> start <= minute
            < end,
{
    reveal_strlit("-");
    reveal_strlit(":");
    let w = clock_text(start) + "-"@ + clock_text(end);
    lemma_clock_text_reads_back(start);
    lemma_clock_text_reads_back(end);
    assert(w.subrange(0, 5) =~= clock_text(start));
    assert(w.subrange(6, 11) =~= clock_text(end));
    assert(w.len() == 11 && w[5] == '-');
}

/// The minutes after midnight of `HH:MM` at `cs[at..at + 5]`.
fn clock_minutes_at(cs: &Vec<char>, at: usize) -> (r: Option<u32>)
    requires
        at + 5 <= cs@.len(),
    ensures
        match clock_minutes(cs@.subrange(at as int, at + 5)) {
            Some(m) => r == Some(m as u32),
            None => r is None,
        },
{
    let ghost t = cs@.subrange(at as int, at + 5);
    proof {
        assert(t[0] == cs@[at as int] && t[1] == cs@[at + 1] && t[2] == cs@[at + 2]);
        assert(t[3] == cs@[at + 3] && t[4] == cs@[at + 4]);
    }
    let len = cs.len();
    assert(at + 5 <= len);
    let (h1, h2, colon, m1, m2) = (cs[at], cs[at + 1], cs[at + 2], cs[at + 3], cs[at + 4]);
    if h1 < '0' || h1 > '9' || h2 < '0' || h2 > '9' || colon != ':' || m1 < '0' || m1 > '9'
        || m2 < '0' || m2 > '9' {
        return None;
    }
    let hours = (h1 as u32 - 48) * 10 + (h2 as u32 - 48);
    let minutes = (m1 as u32 - 48) * 10 + (m2 as u32 - 48);
    if minutes < 60 && hours * 60 + minutes <= 1440 {
        Some(hours * 60 + minutes)
    } else {
        None
    }
}

/// Whether the window `HH:MM-HH:MM` holds the minute `minute`.
pub fn window_holds(window: &str, minute: u32) -> (r: bool)
    ensures
        r == window_contains(window@, minute as int),
{
    let cs = chars_of(window);
    if cs.len() != 11 || cs[5] != '-' {
        return false;
    }
    match (clock_minutes_at(&cs, 0), clock_minutes_at(&cs, 6)) {
        (Some(start), Some(end)) => start <= minute && minute < end,
        _ => false,
    }
}

impl TimePeriodConfig {
    /// Whether this period is open at minute `minute` after midnight of
    /// weekday `weekday` (`0` Sunday to `6` Saturday): that day's window
    /// holds the minute.
    pub fn is_active_now(&self, weekday: u8, minute: u32) -> (r: bool)
        ensures
            r == window_contains(day_window(self@, weekday), minute as int),
    {
        let window = if weekday == 0 {
            &self.sunday
        } else if weekday == 1 {
            &self.monday
        } else if weekday == 2 {
            &self.tuesday
        } else if weekday == 3 {
            &self.wednesday
        } else if weekday == 4 {
            &self.thursday
        } else if weekday == 5 {
            &self.friday
        } else if weekday == 6 {
            &self.saturday
        } else {
            return false;
        };
        window_holds(window.as_str(), minute)
    }
}

/// A resolved contact.
pub struct ContactConfig {
    pub name: String,
    pub alias: String,
    pub email: String,
    pub notification_period: String,
    pub notification_options: Vec<String>,
}

pub struct ContactView {
    pub name: Seq<char>,
    pub alias: Seq<char>,
    pub email: Seq<char>,
    pub notification_period: Seq<char>,
    pub notification_options: Seq<Seq<char>>,
}

impl View for ContactConfig {
    type V = ContactView;

    open spec fn view(&self) -> ContactView {
        ContactView {
            name: self.name@,
            alias: self.alias@,
            email: self.email@,
            notification_period: self.notification_period@,
            notification_options: self.notification_options.deep_view(),
        }
    }
}

/// A resolved service.
pub struct ServiceConfig {
    pub name: String,
    pub description: String,
    pub active: bool,
    pub check_interval: u64,
    pub check_attempts: u32,
    pub check_time_period: String,
    pub warning: Threshold,
    pub critical: Threshold,
    pub disks: Option<Vec<String>>,
    pub interfaces: Option<Vec<String>>,
    pub ntp_pool_server: Option<String>,
}

pub struct ServiceView {
    pub name: Seq<char>,
    pub description: Seq<char>,
    pub active: bool,
    pub check_interval: u64,
    pub check_attempts: u32,
    pub check_time_period: Seq<char>,
    pub warning: Threshold,
    pub critical: Threshold,
    pub disks: Option<Seq<Seq<char>>>,
    pub interfaces: Option<Seq<Seq<char>>>,
    pub ntp_pool_server: Option<Seq<char>>,
}

impl View for ServiceConfig {
    type V = ServiceView;

    open spec fn view(&self) -> ServiceView {
        ServiceView {
            name: self.name@,
            description: self.description@,
            active: self.active,
            check_interval: self.check_interval,
            check_attempts: self.check_attempts,
            check_time_period: self.check_time_period@,
            warning: self.warning,
            critical: self.critical,
            disks: self.disks.deep_view(),
            interfaces: self.interfaces.deep_view(),
            ntp_pool_server: self.ntp_pool_server.deep_view(),
        }
    }
}

/// A configuration object kind that supports templates.
#[derive(Clone, Copy, PartialEq, Eq, Structural)]
pub enum ObjectKind {
    Timeperiod,
    Contact,
    Service,
}

/// An entry names a template that no template entry of its kind declares.
pub struct ConfigError {
    pub kind: ObjectKind,
    pub template: String,
    pub entry: String,
}

pub struct ConfigErrorView {
    pub kind: ObjectKind,
    pub template: Seq<char>,
    pub entry: Seq<char>,
}

impl View for ConfigError {
    type V = ConfigErrorView;

    open spec fn view(&self) -> ConfigErrorView {
        ConfigErrorView { kind: self.kind, template: self.template@, entry: self.entry@ }
    }
}

/// An object as written that may be a template (`register: false`), may
/// inherit from one (`use_template`), and resolves to a complete object.
pub trait Blueprint: Sized + View {
    type Resolved: View;

    spec fn kind() -> ObjectKind;

    spec fn key(&self) -> Seq<char>;

    spec fn registered(&self) -> bool;

    spec fn template(&self) -> Option<Seq<char>>;

    /// The object resolved with `base` as its template (or itself).
    spec fn merged(&self, base: &Self) -> <Self::Resolved as View>::V;

    fn object_kind() -> (r: ObjectKind)
        ensures
            r == Self::kind(),
    ;

    fn name(&self) -> (r: &String)
        ensures
            r@ == self.key(),
    ;

    fn is_registered(&self) -> (r: bool)
        ensures
            r == self.registered(),
    ;

    fn template_name(&self) -> (r: &Option<String>)
        ensures
            r.deep_view() == self.template(),
    ;

    fn merge(&self, base: &Self) -> (r: Self::Resolved)
        ensures
            r@ == self.merged(base),
    ;
}

/// `00:00-24:00`, the window of a day that a time period leaves out.
pub open spec fn all_day() -> Seq<char> {
    "00:00-24:00"@
}

impl Blueprint for RawTimePeriodConfig {
    type Resolved = TimePeriodConfig;

    open spec fn kind() -> ObjectKind {
        ObjectKind::Timeperiod
    }

    open spec fn key(&self) -> Seq<char> {
        self.name@
    }

    open spec fn registered(&self) -> bool {
        self.register
    }

    open spec fn template(&self) -> Option<Seq<char>> {
        self.use_template.deep_view()
    }

    open spec fn merged(&self, base: &Self) -> TimePeriodView {
        TimePeriodView {
            name: self.name@,
            alias: pick(self@.alias, base@.alias, Seq::empty()),
            sunday: pick(self@.sunday, base@.sunday, all_day()),
            monday: pick(self@.monday, base@.monday, all_day()),
            tuesday: pick(self@.tuesday, base@.tuesday, all_day()),
            wednesday: pick(self@.wednesday, base@.wednesday, all_day()),
            thursday: pick(self@.thursday, base@.thursday, all_day()),
            friday: pick(self@.friday, base@.friday, all_day()),
            saturday: pick(self@.saturday, base@.saturday, all_day()),
        }
    }

    fn object_kind() -> ObjectKind {
        ObjectKind::Timeperiod
    }

    fn name(&self) -> &String {
        &self.name
    }

    fn is_registered(&self) -> bool {
        self.register
    }

    fn template_name(&self) -> &Option<String> {
        &self.use_template
    }

    fn merge(&self, base: &Self) -> TimePeriodConfig {
        let r = TimePeriodConfig {
            name: self.name.clone(),
            alias: pick_string(&self.alias, &base.alias, ""),
            sunday: pick_string(&self.sunday, &base.sunday, "00:00-24:00"),
            monday: pick_string(&self.monday, &base.monday, "00:00-24:00"),
            tuesday: pick_string(&self.tuesday, &base.tuesday, "00:00-24:00"),
            wednesday: pick_string(&self.wednesday, &base.wednesday, "00:00-24:00"),
            thursday: pick_string(&self.thursday, &base.thursday, "00:00-24:00"),
            friday: pick_string(&self.friday, &base.friday, "00:00-24:00"),
            saturday: pick_string(&self.saturday, &base.saturday, "00:00-24:00"),
        };
        proof {
            reveal_strlit("");
            assert(""@ =~= Seq::<char>::empty());
        }
        r
    }
}

/// `root@localhost`, the address of a contact that names none.
pub open spec fn default_contact_email() -> Seq<char> {
    "root@localhost"@
}

/// `24x7`, the period of a contact or service that names none.
pub open spec fn default_period_name() -> Seq<char> {
    "24x7"@
}

impl Blueprint for RawContactConfig {
    type Resolved = ContactConfig;

    open spec fn kind() -> ObjectKind {
        ObjectKind::Contact
    }

    open spec fn key(&self) -> Seq<char> {
        self.name@
    }

    open spec fn registered(&self) -> bool {
        self.register
    }

    open spec fn template(&self) -> Option<Seq<char>> {
        self.use_template.deep_view()
    }

    open spec fn merged(&self, base: &Self) -> ContactView {
        ContactView {
            name: self.name@,
            alias: pick(self@.alias, base@.alias, Seq::empty()),
            email: pick(self@.email, base@.email, default_contact_email()),
            notification_period: pick(
                self@.notification_period,
                base@.notification_period,
                default_period_name(),
            ),
            notification_options: pick(
                self@.notification_options,
                base@.notification_options,
                Seq::empty(),
            ),
        }
    }

    fn object_kind() -> ObjectKind {
        ObjectKind::Contact
    }

    fn name(&self) -> &String {
        &self.name
    }

    fn is_registered(&self) -> bool {
        self.register
    }

    fn template_name(&self) -> &Option<String> {
        &self.use_template
    }

    fn merge(&self, base: &Self) -> ContactConfig {
        let options = match &self.notification_options {
            Some(o) => clone_strings(o),
            None => match &base.notification_options {
                Some(o) => clone_strings(o),
                None => Vec::new(),
            },
        };
        let r = ContactConfig {
            name: self.name.clone(),
            alias: pick_string(&self.alias, &base.alias, ""),
            email: pick_string(&self.email, &base.email, "root@localhost"),
            notification_period: pick_string(
                &self.notification_period,
                &base.notification_period,
                "24x7",
            ),
            notification_options: options,
        };
        proof {
            reveal_strlit("");
            assert(""@ =~= Seq::<char>::empty());
            assert(r.notification_options.deep_view() =~= pick(
                self@.notification_options,
                base@.notification_options,
                Seq::empty(),
            ));
        }
        r
    }
}

impl Blueprint for RawServiceConfig {
    type Resolved = ServiceConfig;

    open spec fn kind() -> ObjectKind {
        ObjectKind::Service
    }

    open spec fn key(&self) -> Seq<char> {
        self.name@
    }

    open spec fn registered(&self) -> bool {
        self.register
    }

    open spec fn template(&self) -> Option<Seq<char>> {
        self.use_template.deep_view()
    }

    open spec fn merged(&self, base: &Self) -> ServiceView {
        ServiceView {
            name: self.name@,
            description: pick(self@.description, base@.description, self.name@),
            active: pick(self.active, base.active, true),
            check_interval: pick(self.check_interval, base.check_interval, 60),
            check_attempts: pick(self.check_attempts, base.check_attempts, 3),
            check_time_period: pick(
                self@.check_time_period,
                base@.check_time_period,
                default_period_name(),
            ),
            warning: pick(self.warning, base.warning, default_warning()),
            critical: pick(self.critical, base.critical, default_critical()),
            disks: either(self@.disks, base@.disks),
            interfaces: either(self@.interfaces, base@.interfaces),
            ntp_pool_server: either(self@.ntp_pool_server, base@.ntp_pool_server),
        }
    }

    fn object_kind() -> ObjectKind {
        ObjectKind::Service
    }

    fn name(&self) -> &String {
        &self.name
    }

    fn is_registered(&self) -> bool {
        self.register
    }

    fn template_name(&self) -> &Option<String> {
        &self.use_template
    }

    fn merge(&self, base: &Self) -> ServiceConfig {
        let description = match &self.description {
            Some(d) => d.clone(),
            None => match &base.description {
                Some(d) => d.clone(),
                None => self.name.clone(),
            },
        };
        let active = match self.active {
            Some(a) => a,
            None => match base.active {
                Some(a) => a,
                None => true,
            },
        };
        let check_interval = match self.check_interval {
            Some(a) => a,
            None => match base.check_interval {
                Some(a) => a,
                None => 60,
            },
        };
        let check_attempts = match self.check_attempts {
            Some(a) => a,
            None => match base.check_attempts {
                Some(a) => a,
                None => 3,
            },
        };
        let warning = match self.warning {
            Some(a) => a,
            None => match base.warning {
                Some(a) => a,
                None => Threshold { bits: 0x4054_0000_0000_0000 },
            },
        };
        let critical = match self.critical {
            Some(a) => a,
            None => match base.critical {
                Some(a) => a,
                None => Threshold { bits: 0x4056_8000_0000_0000 },
            },
        };
        ServiceConfig {
            name: self.name.clone(),
            description,
            active,
            check_interval,
            check_attempts,
            check_time_period: pick_string(
                &self.check_time_period,
                &base.check_time_period,
                "24x7",
            ),
            warning,
            critical,
            disks: either_strings(&self.disks, &base.disks),
            interfaces: either_strings(&self.interfaces, &base.interfaces),
            ntp_pool_server: either_string(&self.ntp_pool_server, &base.ntp_pool_server),
        }
    }
}

} // verus!

verus! {

/// For each template name, the position of the last template
/// (`register: false`) entry that declares it.
pub open spec fn template_slots<B: Blueprint>(raws: Seq<B>) -> Map<Seq<char>, usize>
    decreases raws.len(),
{
    if raws.len() == 0 {
        Map::empty()
    } else {
        let m = template_slots(raws.drop_last());
        if !raws.last().registered() {
            m.insert(raws.last().key(), (raws.len() - 1) as usize)
        } else {
            m
        }
    }
}

/// Entry `i` resolved against the template it names (or against itself when
/// it names none), or the error of a missing template.
pub open spec fn resolve_entry<B: Blueprint>(raws: Seq<B>, i: int) -> Result<
    <B::Resolved as View>::V,
    ConfigErrorView,
> {
    let raw = raws[i];
    match raw.template() {
        Some(t) => {
            let slots = template_slots(raws);
            if slots.contains_key(t) {
                Ok(raw.merged(&raws[slots[t] as int]))
            } else {
                Err(ConfigErrorView { kind: B::kind(), template: t, entry: raw.key() })
            }
        },
        None => Ok(raw.merged(&raw)),
    }
}

/// The enrolled (`register: true`) entries among the first `n`, resolved and
/// keyed by name (a later entry replacing an earlier one of the same name),
/// or the error of the first of them whose template is missing.
pub open spec fn resolve_prefix<B: Blueprint>(raws: Seq<B>, n: nat) -> Result<
    Map<Seq<char>, <B::Resolved as View>::V>,
    ConfigErrorView,
>
    decreases n,
{
    if n == 0 {
        Ok(Map::empty())
    } else {
        match resolve_prefix(raws, (n - 1) as nat) {
            Err(e) => Err(e),
            Ok(m) => {
                let raw = raws[n - 1];
                if !raw.registered() {
                    Ok(m)
                } else {
                    match resolve_entry(raws, n - 1) {
                        Ok(v) => Ok(m.insert(raw.key(), v)),
                        Err(e) => Err(e),
                    }
                }
            },
        }
    }
}

/// All entries of one kind resolved (see `resolve_prefix`).
pub open spec fn resolve_all<B: Blueprint>(raws: Seq<B>) -> Result<
    Map<Seq<char>, <B::Resolved as View>::V>,
    ConfigErrorView,
> {
    resolve_prefix(raws, raws.len())
}

proof fn lemma_template_slots_in_range<B: Blueprint>(raws: Seq<B>)
    requires
        raws.len() <= usize::MAX,
    ensures
        forall|t: Seq<char>| #[trigger] template_slots(raws).contains_key(t)
            ==> (template_slots(raws)[t] as int) < raws.len(),
    decreases raws.len(),
{
    if raws.len() > 0 {
        lemma_template_slots_in_range(raws.drop_last());
        let m = template_slots(raws.drop_last());
        assert forall|t: Seq<char>| #[trigger] template_slots(raws).contains_key(t)
            implies (template_slots(raws)[t] as int) < raws.len() by {
            if !raws.last().registered() && t == raws.last().key() {
            } else {
                assert(m.contains_key(t));
            }
        }
    }
}

proof fn lemma_error_persists<B: Blueprint>(raws: Seq<B>, n: nat, m: nat)
    requires
        n <= m,
        resolve_prefix(raws, n) is Err,
    ensures
        resolve_prefix(raws, m) == resolve_prefix(raws, n),
    decreases m - n,
{
    if n < m {
        lemma_error_persists(raws, n, (m - 1) as nat);
    }
}

/// The positions of the template entries of `raws`, by name.
fn collect_templates<B: Blueprint>(raws: &Vec<B>) -> (r: Registry<usize>)
    ensures
        r.map() == template_slots(raws@),
{
    let mut r: Registry<usize> = Registry::new();
    let mut i: usize = 0;
    while i < raws.len()
        invariant
            i <= raws@.len(),
            r.map() == template_slots(raws@.take(i as int)),
        decreases raws@.len() - i,
    {
        proof {
            assert(raws@.take(i + 1).drop_last() =~= raws@.take(i as int));
            assert(raws@.take(i + 1).last() == raws@[i as int]);
        }
        if !raws[i].is_registered() {
            r.insert(raws[i].name().clone(), i);
        }
        i = i + 1;
    }
    proof {
        assert(raws@.take(i as int) =~= raws@);
    }
    r
}

/// Resolves every enrolled entry of one kind against its template.
pub fn resolve_blueprints<B: Blueprint>(raws: &Vec<B>) -> (r: Result<
    Registry<B::Resolved>,
    ConfigError,
>)
    ensures
        match r {
            Ok(reg) => resolve_all(raws@) == Ok::<_, ConfigErrorView>(reg.map())
                && reg.keys().no_duplicates(),
            Err(e) => resolve_all(raws@) == Err::<Map<Seq<char>, <B::Resolved as View>::V>, _>(
                e@,
            ),
        },
{
    let templates = collect_templates(raws);
    let count = raws.len();
    proof {
        lemma_template_slots_in_range(raws@);
    }
    let mut resolved: Registry<B::Resolved> = Registry::new();
    let mut i: usize = 0;
    while i < raws.len()
        invariant
            i <= raws@.len(),
            templates.map() == template_slots(raws@),
            forall|t: Seq<char>| #[trigger] template_slots(raws@).contains_key(t)
                ==> (template_slots(raws@)[t] as int) < raws@.len(),
            resolve_prefix(raws@, i as nat) == Ok::<_, ConfigErrorView>(resolved.map()),
            resolved.keys().no_duplicates(),
        decreases raws@.len() - i,
    {
        let raw = &raws[i];
        if raw.is_registered() {
            let value = match raw.template_name() {
                Some(t) => match templates.get(t.as_str()) {
                    Some(idx) => raw.merge(&raws[*idx]),
                    None => {
                        let e = ConfigError {
                            kind: B::object_kind(),
                            template: t.clone(),
                            entry: raw.name().clone(),
                        };
                        proof {
                            assert(resolve_prefix(raws@, (i + 1) as nat) == Err::<
                                Map<Seq<char>, <B::Resolved as View>::V>,
                                _,
                            >(e@));
                            lemma_error_persists(raws@, (i + 1) as nat, raws@.len());
                        }
                        return Err(e);
                    },
                },
                None => raw.merge(raw),
            };
            resolved.insert(raw.name().clone(), value);
        }
        i = i + 1;
    }
    Ok(resolved)
}

} // verus!

verus! {

/// Whether the named time period is open at a minute of a weekday; a name
/// that no time period has does not restrict.
pub open spec fn period_open(
    periods: Map<Seq<char>, TimePeriodView>,
    name: Seq<char>,
    weekday: u8,
    minute: int,
) -> bool {
    !periods.contains_key(name) || window_contains(day_window(periods[name], weekday), minute)
}

/// The notification option that selects alerts about `state`: `r` for a
/// recovery to `OK`, `w` for `WARNING`, `c` for `CRITICAL` and `u` for any
/// other (unknown) state.
pub open spec fn notification_flag(state: Seq<char>) -> Seq<char> {
    if state == "OK"@ {
        "r"@
    } else if state == "WARNING"@ {
        "w"@
    } else if state == "CRITICAL"@ {
        "c"@
    } else {
        "u"@
    }
}

/// Whether contact `c` takes alerts about `state` at a minute of a weekday:
/// its notification period is open and its options hold the state's flag.
pub open spec fn contact_takes(
    c: ContactView,
    periods: Map<Seq<char>, TimePeriodView>,
    state: Seq<char>,
    weekday: u8,
    minute: int,
) -> bool {
    period_open(periods, c.notification_period, weekday, minute)
        && c.notification_options.contains(notification_flag(state))
}

/// The addresses of the contacts that take an alert, in the contacts' order.
pub open spec fn recipients_of(
    contacts: Seq<ContactView>,
    periods: Map<Seq<char>, TimePeriodView>,
    state: Seq<char>,
    weekday: u8,
    minute: int,
) -> Seq<Seq<char>>
    decreases contacts.len(),
{
    if contacts.len() == 0 {
        Seq::empty()
    } else {
        let rest = recipients_of(contacts.drop_last(), periods, state, weekday, minute);
        if contact_takes(contacts.last(), periods, state, weekday, minute) {
            rest.push(contacts.last().email)
        } else {
            rest
        }
    }
}

/// The notification option that selects alerts about `state`.
pub fn notification_flag_str(state: &str) -> (r: String)
    ensures
        r@ == notification_flag(state@),
{
    if str_eq(state, "OK") {
        "r".to_owned()
    } else if str_eq(state, "WARNING") {
        "w".to_owned()
    } else if str_eq(state, "CRITICAL") {
        "c".to_owned()
    } else {
        "u".to_owned()
    }
}

/// Whether `items` holds `wanted`.
pub fn holds_string(items: &Vec<String>, wanted: &str) -> (r: bool)
    ensures
        r == items.deep_view().contains(wanted@),
{
    let mut i: usize = 0;
    while i < items.len()
        invariant
            i <= items@.len(),
            forall|j: int| 0 <= j < i ==> items@[j]@ != wanted@,
        decreases items@.len() - i,
    {
        if str_eq(items[i].as_str(), wanted) {
            proof {
                assert(items.deep_view()[i as int] == wanted@);
            }
            return true;
        }
        i = i + 1;
    }
    proof {
        if items.deep_view().contains(wanted@) {
            let j = choose|j: int| 0 <= j < items.deep_view().len() && items.deep_view()[j] == wanted@;
            assert(items@[j]@ == wanted@);
        }
    }
    false
}

/// The resolved configuration: settings as written, and the enrolled time
/// periods, contacts and services, keyed by name.
pub struct AppConfig {
    pub setting: RawSettingConfig,
    pub system: RawSystemConfig,
    pub email: RawEmailConfig,
    pub timeperiods: Registry<TimePeriodConfig>,
    pub contacts: Registry<ContactConfig>,
    pub services: Registry<ServiceConfig>,
}

/// The first missing-template error of a parsed configuration: time periods
/// are resolved first, then contacts, then services.
pub open spec fn config_error(brute: &AppConfigBrute) -> Option<ConfigErrorView> {
    match resolve_all(brute.timeperiods@) {
        Err(e) => Some(e),
        Ok(_) => match resolve_all(brute.contacts@) {
            Err(e) => Some(e),
            Ok(_) => match resolve_all(brute.services@) {
                Err(e) => Some(e),
                Ok(_) => None,
            },
        },
    }
}

impl AppConfig {
    /// Resolves the templates of a parsed configuration file.
    pub fn resolve(brute: AppConfigBrute) -> (r: Result<AppConfig, ConfigError>)
        ensures
            r is Ok <==> config_error(&brute) is None,
            match r {
                Ok(c) => {
                    &&& c.setting@ == brute.setting@
                    &&& c.system@ == brute.system@
                    &&& c.email@ == brute.email@
                    &&& resolve_all(brute.timeperiods@) == Ok::<_, ConfigErrorView>(
                        c.timeperiods.map(),
                    )
                    &&& resolve_all(brute.contacts@) == Ok::<_, ConfigErrorView>(
                        c.contacts.map(),
                    )
                    &&& resolve_all(brute.services@) == Ok::<_, ConfigErrorView>(
                        c.services.map(),
                    )
                    &&& c.timeperiods.keys().no_duplicates()
                    &&& c.contacts.keys().no_duplicates()
                    &&& c.services.keys().no_duplicates()
                },
                Err(e) => config_error(&brute) == Some(e@),
            },
    {
        let timeperiods = match resolve_blueprints(&brute.timeperiods) {
            Ok(t) => t,
            Err(e) => {
                return Err(e);
            },
        };
        let contacts = match resolve_blueprints(&brute.contacts) {
            Ok(c) => c,
            Err(e) => {
                return Err(e);
            },
        };
        let services = match resolve_blueprints(&brute.services) {
            Ok(s) => s,
            Err(e) => {
                return Err(e);
            },
        };
        Ok(
            AppConfig {
                setting: brute.setting,
                system: brute.system,
                email: brute.email,
                timeperiods,
                contacts,
                services,
            },
        )
    }

    /// The description of a service, or the key itself where no service has
    /// that key.
    pub fn get_description(&self, service_key: &str) -> (r: String)
        ensures
            r@ == if self.services.map().contains_key(service_key@) {
                self.services.map()[service_key@].description
            } else {
                service_key@
            },
    {
        match self.services.get(service_key) {
            Some(s) => s.description.clone(),
            None => service_key.to_owned(),
        }
    }

    /// Whether the named time period is open at minute `minute` of weekday
    /// `weekday`; a name that no time period has does not restrict.
    pub fn period_open_at(&self, name: &str, weekday: u8, minute: u32) -> (r: bool)
        ensures
            r == period_open(self.timeperiods.map(), name@, weekday, minute as int),
    {
        match self.timeperiods.get(name) {
            Some(period) => period.is_active_now(weekday, minute),
            None => true,
        }
    }

    /// The addresses an alert about `state` goes to at minute `minute` of
    /// weekday `weekday`: every contact, in the contacts' order, whose
    /// notification period is open then and whose notification options hold
    /// the state's flag.
    pub fn alert_recipients(&self, state: &str, weekday: u8, minute: u32) -> (r: Vec<String>)
        ensures
            r.deep_view() == recipients_of(
                self.contacts.values(),
                self.timeperiods.map(),
                state@,
                weekday,
                minute as int,
            ),
    {
        let flag = notification_flag_str(state);
        let mut r: Vec<String> = Vec::new();
        let n = self.contacts.len();
        let mut i: usize = 0;
        while i < n
            invariant
                n == self.contacts.values().len(),
                n == self.contacts.keys().len(),
                i <= n,
                flag@ == notification_flag(state@),
                r.deep_view() == recipients_of(
                    self.contacts.values().take(i as int),
                    self.timeperiods.map(),
                    state@,
                    weekday,
                    minute as int,
                ),
            decreases n - i,
        {
            let c = self.contacts.value_at(i);
            proof {
                let upto = self.contacts.values().take(i + 1);
                assert(upto.drop_last() =~= self.contacts.values().take(i as int));
                assert(upto.last() == c@);
            }
            if self.period_open_at(c.notification_period.as_str(), weekday, minute)
                && holds_string(&c.notification_options, flag.as_str()) {
                r.push(c.email.clone());
                proof {
                    assert(r.deep_view() =~= recipients_of(
                        self.contacts.values().take(i as int),
                        self.timeperiods.map(),
                        state@,
                        weekday,
                        minute as int,
                    ).push(c@.email));
                }
            }
            i = i + 1;
        }
        proof {
            assert(self.contacts.values().take(n as int) =~= self.contacts.values());
        }
        r
    }

    /// The address of every contact, in the contacts' order.
    pub fn get_contact_emails(&self) -> (r: Vec<String>)
        ensures
            r.deep_view() == self.contacts.values().map_values(|c: ContactView| c.email),
    {
        let mut r: Vec<String> = Vec::new();
        let mut i: usize = 0;
        let n = self.contacts.len();
        while i < n
            invariant
                n == self.contacts.values().len(),
                n == self.contacts.keys().len(),
                i <= n,
                r@.len() == i,
                forall|j: int| 0 <= j < i ==> #[trigger] r@[j]@ == self.contacts.values()[j].email,
            decreases n - i,
        {
            let c = self.contacts.value_at(i);
            let _ = (&c.alias, &c.notification_period, &c.notification_options);
            r.push(c.email.clone());
            i = i + 1;
        }
        proof {
            assert(r.deep_view() =~= self.contacts.values().map_values(|c: ContactView| c.email));
        }
        r
    }
}

} // verus!

verus! {

/// A successful resolution enrolls exactly the names of the enrolled
/// (`register: true`) entries, templates being left out, and resolves each
/// name from the last enrolled entry that carries it.
pub proof fn lemma_enrolled_names<B: Blueprint>(raws: Seq<B>, n: nat)
    requires
        n <= raws.len(),
        resolve_prefix(raws, n) is Ok,
    ensures
        ({
            let m = resolve_prefix(raws, n)->Ok_0;
            &&& forall|k: Seq<char>|
                #[trigger] m.contains_key(k) <==> exists|i: int|
                    0 <= i < n && (#[trigger] raws[i]).registered() && raws[i].key() == k
            &&& forall|i: int|
                0 <= i < n && (#[trigger] raws[i]).registered() && (forall|j: int|
                    i < j < n ==> !(raws[j].registered() && raws[j].key() == raws[i].key()))
                    ==> m[raws[i].key()] == resolve_entry(raws, i)->Ok_0
        }),
    decreases n,
{
    if n > 0 {
        let n1 = (n - 1) as nat;
        lemma_enrolled_names(raws, n1);
        let m1 = resolve_prefix(raws, n1)->Ok_0;
        let m = resolve_prefix(raws, n)->Ok_0;
        let last = raws[n1 as int];
        assert forall|k: Seq<char>| #[trigger] m.contains_key(k) <==> exists|i: int|
            0 <= i < n && (#[trigger] raws[i]).registered() && raws[i].key() == k by {
            if m.contains_key(k) {
                if m1.contains_key(k) {
                    let i = choose|i: int|
                        0 <= i < n1 && (#[trigger] raws[i]).registered() && raws[i].key() == k;
                    assert(0 <= i < n && raws[i].registered() && raws[i].key() == k);
                } else {
                    assert(raws[n1 as int].registered() && raws[n1 as int].key() == k);
                }
            }
            if exists|i: int| 0 <= i < n && (#[trigger] raws[i]).registered() && raws[i].key() == k {
                let i = choose|i: int|
                    0 <= i < n && (#[trigger] raws[i]).registered() && raws[i].key() == k;
                if i < n1 {
                    assert(m1.contains_key(k));
                }
            }
        }
        assert forall|i: int|
            0 <= i < n && (#[trigger] raws[i]).registered() && (forall|j: int|
                i < j < n ==> !(raws[j].registered() && raws[j].key() == raws[i].key()))
            implies m[raws[i].key()] == resolve_entry(raws, i)->Ok_0 by {
            if i < n1 {
                assert(!(last.registered() && last.key() == raws[i].key()));
            }
        }
    }
}

} // verus!

verus! {

/// Whether `resolved` is the setting an entry ends up with when it sets
/// `own`, its template sets `template` and the default is `default`: the
/// entry's own value where it has one, else the template's, else the
/// default.
pub open spec fn takes_own_then_template<A>(
    own: Option<A>,
    template: Option<A>,
    default: A,
    resolved: A,
) -> bool {
    &&& own matches Some(v) ==> resolved == v
    &&& own is None ==> (template matches Some(w) ==> resolved == w)
    &&& own is None && template is None ==> resolved == default
}

/// A service entry's own settings win over its template's, and the
/// template's over the defaults (description: the entry's name; active;
/// every 60 s; 3 attempts; the `24x7` period; warning 80.0, critical 90.0);
/// the optional lists and NTP server come from the entry, else the template.
pub proof fn lemma_service_settings_override(raw: RawServiceConfig, base: RawServiceConfig)
    ensures
        ({
            let r = raw.merged(&base);
            &&& r.name == raw@.name
            &&& takes_own_then_template(raw@.description, base@.description, raw@.name, r.description)
            &&& takes_own_then_template(raw.active, base.active, true, r.active)
            &&& takes_own_then_template(raw.check_interval, base.check_interval, 60u64, r.check_interval)
            &&& takes_own_then_template(raw.check_attempts, base.check_attempts, 3u32, r.check_attempts)
            &&& takes_own_then_template(
                raw@.check_time_period,
                base@.check_time_period,
                "24x7"@,
                r.check_time_period,
            )
            &&& takes_own_then_template(raw.warning, base.warning, Threshold { bits: 0x4054_0000_0000_0000 }, r.warning)
            &&& takes_own_then_template(raw.critical, base.critical, Threshold { bits: 0x4056_8000_0000_0000 }, r.critical)
            &&& (raw@.disks is Some ==> r.disks == raw@.disks)
            &&& (raw@.disks is None ==> r.disks == base@.disks)
            &&& (raw@.interfaces is Some ==> r.interfaces == raw@.interfaces)
            &&& (raw@.interfaces is None ==> r.interfaces == base@.interfaces)
            &&& (raw@.ntp_pool_server is Some ==> r.ntp_pool_server == raw@.ntp_pool_server)
            &&& (raw@.ntp_pool_server is None ==> r.ntp_pool_server == base@.ntp_pool_server)
        }),
{
}

/// A contact entry's own settings win over its template's, and the
/// template's over the defaults (no alias, `root@localhost`, the `24x7`
/// period, no notification options).
pub proof fn lemma_contact_settings_override(raw: RawContactConfig, base: RawContactConfig)
    ensures
        ({
            let r = raw.merged(&base);
            &&& r.name == raw@.name
            &&& takes_own_then_template(raw@.alias, base@.alias, Seq::empty(), r.alias)
            &&& takes_own_then_template(raw@.email, base@.email, "root@localhost"@, r.email)
            &&& takes_own_then_template(
                raw@.notification_period,
                base@.notification_period,
                "24x7"@,
                r.notification_period,
            )
            &&& takes_own_then_template(
                raw@.notification_options,
                base@.notification_options,
                Seq::empty(),
                r.notification_options,
            )
        }),
{
}

/// A time-period entry's own windows win over its template's, and the
/// template's over the whole day `00:00-24:00`.
pub proof fn lemma_time_period_settings_override(raw: RawTimePeriodConfig, base: RawTimePeriodConfig)
    ensures
        ({
            let r = raw.merged(&base);
            &&& r.name == raw@.name
            &&& takes_own_then_template(raw@.alias, base@.alias, Seq::empty(), r.alias)
            &&& takes_own_then_template(raw@.sunday, base@.sunday, "00:00-24:00"@, r.sunday)
            &&& takes_own_then_template(raw@.monday, base@.monday, "00:00-24:00"@, r.monday)
            &&& takes_own_then_template(raw@.tuesday, base@.tuesday, "00:00-24:00"@, r.tuesday)
            &&& takes_own_then_template(raw@.wednesday, base@.wednesday, "00:00-24:00"@, r.wednesday)
            &&& takes_own_then_template(raw@.thursday, base@.thursday, "00:00-24:00"@, r.thursday)
            &&& takes_own_then_template(raw@.friday, base@.friday, "00:00-24:00"@, r.friday)
            &&& takes_own_then_template(raw@.saturday, base@.saturday, "00:00-24:00"@, r.saturday)
        }),
{
}

/// Where the entries of one kind resolve, every enrolled entry among them
/// found its template.
pub proof fn lemma_resolved_entries_found_templates<B: Blueprint>(raws: Seq<B>, n: nat)
    requires
        n <= raws.len(),
        resolve_prefix(raws, n) is Ok,
    ensures
        forall|i: int| 0 <= i < n && (#[trigger] raws[i]).registered() ==> resolve_entry(raws, i) is Ok,
    decreases n,
{
    if n > 0 {
        lemma_resolved_entries_found_templates(raws, (n - 1) as nat);
    }
}

/// In a resolved configuration, a service's `check_attempts`,
/// `check_interval`, thresholds and `active` flag are those its last
/// enrolled entry sets itself, whatever its template sets.
pub proof fn lemma_resolved_service_keeps_own_settings(raws: Seq<RawServiceConfig>, i: int)
    requires
        resolve_all(raws) is Ok,
        0 <= i < raws.len(),
        raws[i].registered(),
        forall|j: int| i < j < raws.len() ==> !(raws[j].registered() && raws[j].key() == raws[i].key()),
    ensures
        ({
            let s = resolve_all(raws)->Ok_0[raws[i]@.name];
            &&& raws[i].check_attempts matches Some(v) ==> s.check_attempts == v
            &&& raws[i].check_interval matches Some(v) ==> s.check_interval == v
            &&& raws[i].warning matches Some(v) ==> s.warning == v
            &&& raws[i].critical matches Some(v) ==> s.critical == v
            &&& raws[i].active matches Some(v) ==> s.active == v
        }),
{
    lemma_enrolled_names(raws, raws.len());
    lemma_resolved_entries_found_templates(raws, raws.len());
    assert(resolve_entry(raws, i) is Ok);
    let raw = raws[i];
    match raw.template() {
        Some(t) => {
            let slots = template_slots(raws);
            lemma_service_settings_override(raw, raws[slots[t] as int]);
        },
        None => {
            lemma_service_settings_override(raw, raw);
        },
    }
}

} // verus!

verus! {

/// The addresses, in the contacts' order, of the contacts whose notification
/// period is open at a minute of a weekday and whose notification options
/// hold `option`.
pub open spec fn reachable_with(
    contacts: Seq<ContactView>,
    periods: Map<Seq<char>, TimePeriodView>,
    option: Seq<char>,
    weekday: u8,
    minute: int,
) -> Seq<Seq<char>> {
    contacts.filter(
        |c: ContactView|
            period_open(periods, c.notification_period, weekday, minute)
                && c.notification_options.contains(option),
    ).map_values(|c: ContactView| c.email)
}

proof fn lemma_recipients_select(
    contacts: Seq<ContactView>,
    periods: Map<Seq<char>, TimePeriodView>,
    state: Seq<char>,
    option: Seq<char>,
    weekday: u8,
    minute: int,
)
    requires
        notification_flag(state) == option,
    ensures
        recipients_of(contacts, periods, state, weekday, minute) == reachable_with(
            contacts,
            periods,
            option,
            weekday,
            minute,
        ),
    decreases contacts.len(),
{
    if contacts.len() > 0 {
        lemma_recipients_select(contacts.drop_last(), periods, state, option, weekday, minute);
        let pred = |c: ContactView|
            period_open(periods, c.notification_period, weekday, minute)
                && c.notification_options.contains(option);
        let rest = contacts.drop_last().filter(pred);
        reveal_with_fuel(Seq::filter, 1);
        assert(contacts.filter(pred) == if pred(contacts.last()) {
            rest.push(contacts.last())
        } else {
            rest
        });
        if pred(contacts.last()) {
            assert(rest.push(contacts.last()).map_values(|c: ContactView| c.email) =~= rest.map_values(
                |c: ContactView| c.email,
            ).push(contacts.last().email));
        }
    } else {
        reveal_with_fuel(Seq::filter, 1);
        assert(reachable_with(contacts, periods, option, weekday, minute) =~= Seq::empty());
    }
}

/// An alert goes to exactly the contacts, in their order, whose notification
/// period is open and whose notification options select it: `r` a recovery
/// to `OK`, `w` a `WARNING`, `c` a `CRITICAL`, and `u` any other state.
pub proof fn lemma_alerts_follow_notification_options(
    contacts: Seq<ContactView>,
    periods: Map<Seq<char>, TimePeriodView>,
    state: Seq<char>,
    weekday: u8,
    minute: int,
)
    ensures
        recipients_of(contacts, periods, "OK"@, weekday, minute) == reachable_with(
            contacts,
            periods,
            "r"@,
            weekday,
            minute,
        ),
        recipients_of(contacts, periods, "WARNING"@, weekday, minute) == reachable_with(
            contacts,
            periods,
            "w"@,
            weekday,
            minute,
        ),
        recipients_of(contacts, periods, "CRITICAL"@, weekday, minute) == reachable_with(
            contacts,
            periods,
            "c"@,
            weekday,
            minute,
        ),
        state != "OK"@ && state != "WARNING"@ && state != "CRITICAL"@ ==> recipients_of(
            contacts,
            periods,
            state,
            weekday,
            minute,
        ) == reachable_with(contacts, periods, "u"@, weekday, minute),
{
    reveal_strlit("OK");
    reveal_strlit("WARNING");
    reveal_strlit("CRITICAL");
    assert("WARNING"@.len() == 7 && "OK"@.len() == 2 && "CRITICAL"@.len() == 8);
    lemma_recipients_select(contacts, periods, "OK"@, "r"@, weekday, minute);
    lemma_recipients_select(contacts, periods, "WARNING"@, "w"@, weekday, minute);
    lemma_recipients_select(contacts, periods, "CRITICAL"@, "c"@, weekday, minute);
    if state != "OK"@ && state != "WARNING"@ && state != "CRITICAL"@ {
        lemma_recipients_select(contacts, periods, state, "u"@, weekday, minute);
    }
}

} // verus!
