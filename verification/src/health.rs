//! Watching over a service: when it is to be started again, and whether an
//! answer to a probe is a good one.
use vstd::prelude::*;

use crate::numbers::{decimal, decimal_text};
use crate::text::{contains_text, has_prefix, occurs_at, owned};

verus! {

/// How many files a service may hold open before it is started again.
pub const SERVER_FD_RESTART_THRESHOLD: usize = 4096;

/// How many seconds pass before the watchdog looks for the first time.
pub const SERVER_HEALTH_WATCHDOG_INITIAL_DELAY_SECS: u64 = 15;

/// How many seconds pass between two looks of the watchdog.
pub const SERVER_HEALTH_WATCHDOG_INTERVAL_SECS: u64 = 5;

/// How many seconds the watchdog waits for an answer.
pub const SERVER_HEALTH_WATCHDOG_PROBE_TIMEOUT_SECS: u64 = 3;

/// How many seconds old a heartbeat may be.
pub const SERVER_HEALTH_WATCHDOG_STALE_HEARTBEAT_SECS: u64 = 60;

/// How many stale heartbeats in a row are too many.
pub const SERVER_HEALTH_WATCHDOG_FAILURE_THRESHOLD: usize = 12;

/// How many probes in a row may not fail.
pub const SERVER_HEALTH_WATCHDOG_HTTP_FAILURE_THRESHOLD: usize = 3;

/// How many seconds a probe of a recorded service may take.
pub const SERVICE_HEALTH_PROBE_TIMEOUT_SECS: u64 = 5;

/// So many failures in a row are too many.
pub open spec fn too_many_failures(heartbeats: nat, probes: nat) -> bool {
    !(heartbeats < SERVER_HEALTH_WATCHDOG_FAILURE_THRESHOLD && probes
        < SERVER_HEALTH_WATCHDOG_HTTP_FAILURE_THRESHOLD)
}

/// Twelve stale heartbeats in a row, or three failed probes, are too many, and less
/// of both are not.
pub proof fn twelve_heartbeats_or_three_probes(heartbeats: nat, probes: nat)
    ensures
        heartbeats >= 12 || probes >= 3 <==> too_many_failures(heartbeats, probes),
{
}

pub fn server_health_watchdog_should_restart(
    consecutive_heartbeat_failures: usize,
    consecutive_http_probe_failures: usize,
) -> (restart: bool)
    ensures
        restart == too_many_failures(
            consecutive_heartbeat_failures as nat,
            consecutive_http_probe_failures as nat,
        ),
        restart == (consecutive_heartbeat_failures >= SERVER_HEALTH_WATCHDOG_FAILURE_THRESHOLD
            || consecutive_http_probe_failures >= SERVER_HEALTH_WATCHDOG_HTTP_FAILURE_THRESHOLD),
{
    consecutive_heartbeat_failures >= SERVER_HEALTH_WATCHDOG_FAILURE_THRESHOLD
        || consecutive_http_probe_failures >= SERVER_HEALTH_WATCHDOG_HTTP_FAILURE_THRESHOLD
}

/// The failures in a row that the watchdog counts.
#[derive(Debug)]
pub struct HealthWatchdog {
    heartbeat_failures: usize,
    http_failures: usize,
}

/// The failures in a row after one more look.
pub open spec fn count_failure(before: nat, failed: bool) -> nat {
    if failed {
        before + 1
    } else {
        0
    }
}

/// A heartbeat is stale when it is more than a minute old.
pub open spec fn stale(now: u64, heartbeat: u64) -> bool {
    now - heartbeat > SERVER_HEALTH_WATCHDOG_STALE_HEARTBEAT_SECS
}

impl HealthWatchdog {
    pub closed spec fn heartbeat_failures(self) -> nat {
        self.heartbeat_failures as nat
    }

    pub closed spec fn http_failures(self) -> nat {
        self.http_failures as nat
    }

    /// The service is not to be started again yet.
    pub open spec fn content(self) -> bool {
        self.heartbeat_failures() < SERVER_HEALTH_WATCHDOG_FAILURE_THRESHOLD
            && self.http_failures() < SERVER_HEALTH_WATCHDOG_HTTP_FAILURE_THRESHOLD
    }

    pub fn new() -> (watchdog: HealthWatchdog)
        ensures
            watchdog.content(),
            watchdog.heartbeat_failures() == 0,
            watchdog.http_failures() == 0,
    {
        HealthWatchdog { heartbeat_failures: 0, http_failures: 0 }
    }

    /// Takes in one look, and tells whether the service is to be started again.
    pub fn observe(&mut self, now: u64, heartbeat: u64, health_ok: bool) -> (restart: bool)
        requires
            old(self).content(),
        ensures
            final(self).heartbeat_failures() == count_failure(
                old(self).heartbeat_failures(),
                stale(now, heartbeat),
            ),
            final(self).http_failures() == count_failure(old(self).http_failures(), !health_ok),
            restart == !final(self).content(),
    {
        let age: u64 = if now > heartbeat {
            now - heartbeat
        } else {
            0
        };
        if age > SERVER_HEALTH_WATCHDOG_STALE_HEARTBEAT_SECS {
            self.heartbeat_failures = self.heartbeat_failures + 1;
        } else {
            self.heartbeat_failures = 0;
        }
        if health_ok {
            self.http_failures = 0;
        } else {
            self.http_failures = self.http_failures + 1;
        }
        server_health_watchdog_should_restart(self.heartbeat_failures, self.http_failures)
    }

    /// The message of a service that is started again.
    pub fn restart_message(&self, heartbeat_age: u64, health_ok: bool) -> (message: String)
        ensures
            message@ == "SimDeck server health watchdog failed (heartbeat_failures="@ + decimal(
                self.heartbeat_failures(),
            ) + ", http_probe_failures="@ + decimal(self.http_failures()) + ", heartbeat_age="@
                + decimal(heartbeat_age as nat) + "s, http_health_ok="@ + (if health_ok {
                "true"@
            } else {
                "false"@
            }) + "); restarting server process."@,
    {
        let mut message = owned("SimDeck server health watchdog failed (heartbeat_failures=");
        message.append(decimal_text(self.heartbeat_failures as u64).as_str());
        message.append(", http_probe_failures=");
        message.append(decimal_text(self.http_failures as u64).as_str());
        message.append(", heartbeat_age=");
        message.append(decimal_text(heartbeat_age).as_str());
        message.append("s, http_health_ok=");
        if health_ok {
            message.append("true");
        } else {
            message.append("false");
        }
        message.append("); restarting server process.");
        message
    }
}

/// The failures in a row after a list of looks.
pub open spec fn failures_after(looks: Seq<bool>) -> nat
    decreases looks.len(),
{
    if looks.len() == 0 {
        0
    } else {
        count_failure(failures_after(looks.drop_last()), looks.last())
    }
}

/// The last `count` looks of a list failed.
pub open spec fn last_failed(looks: Seq<bool>, count: nat) -> bool {
    count <= looks.len() && forall|i: int|
        looks.len() - count <= i < looks.len() ==> #[trigger] looks[i]
}

/// A count is reached exactly when so many looks failed one after the other:
/// one good look in between starts it anew.
pub proof fn failures_are_counted_in_a_row(looks: Seq<bool>, count: nat)
    requires
        count > 0,
    ensures
        failures_after(looks) >= count <==> last_failed(looks, count),
    decreases looks.len(),
{
    if looks.len() > 0 {
        let front = looks.drop_last();
        if count > 1 {
            failures_are_counted_in_a_row(front, (count - 1) as nat);
        }
        if looks.last() {
            if last_failed(looks, count) && count > 1 {
                assert forall|i: int|
                    front.len() - (count - 1) <= i < front.len() implies #[trigger] front[i] by {
                    assert(looks[i]);
                }
                assert(last_failed(front, (count - 1) as nat));
            }
            if failures_after(looks) >= count {
                assert forall|i: int|
                    looks.len() - count <= i < looks.len() implies #[trigger] looks[i] by {
                    if i < front.len() {
                        assert(front[i] == looks[i]);
                    }
                }
            }
        } else {
            assert(!looks[looks.len() - 1]);
        }
    }
}

/// Tells whether a service that holds so many files open is to be started again.
pub fn fd_pressure(fd_count: usize) -> (restart: bool)
    ensures
        restart == (fd_count > SERVER_FD_RESTART_THRESHOLD),
{
    fd_count > SERVER_FD_RESTART_THRESHOLD
}

/// The message of a service that is started again for its open files.
pub fn fd_pressure_message(fd_count: usize) -> (message: String)
    ensures
        message@ == "Open file descriptor count reached "@ + decimal(fd_count as nat)
            + "; restarting simdeck server process."@,
{
    let mut message = owned("Open file descriptor count reached ");
    message.append(decimal_text(fd_count as u64).as_str());
    message.append("; restarting simdeck server process.");
    message
}

/// The request that asks a service whether it is well.
pub open spec fn probe_request() -> Seq<char> {
    "GET /api/health HTTP/1.1\r\nHost: 127.0.0.1\r\nConnection: close\r\n\r\n"@
}

pub fn health_probe_request() -> (request: &'static str)
    ensures
        request@ == probe_request(),
{
    "GET /api/health HTTP/1.1\r\nHost: 127.0.0.1\r\nConnection: close\r\n\r\n"
}

/// The first bytes of a good answer: `HTTP/1.1 200`.
pub open spec fn good_status_line() -> Seq<u8> {
    seq![72u8, 84, 84, 80, 47, 49, 46, 49, 32, 50, 48, 48]
}

/// What was read of an answer is the start of a good one, and more.
pub open spec fn good_answer(response: Seq<u8>) -> bool {
    response.len() > 12 && response.take(12) == good_status_line()
}

/// Tells whether what was read of an answer is the start of a good one, and more.
pub fn health_response_is_ok(response: &Vec<u8>) -> (ok: bool)
    ensures
        ok == good_answer(response@),
{
    if response.len() <= 12 {
        return false;
    }
    let ok = response[0] == 72 && response[1] == 84 && response[2] == 84 && response[3] == 80
        && response[4] == 47 && response[5] == 49 && response[6] == 46 && response[7] == 49
        && response[8] == 32 && response[9] == 50 && response[10] == 48 && response[11] == 48;
    proof {
        let read = response@.take(12);
        let good = good_status_line();
        if ok {
            assert(read =~= good);
        }
        if read == good {
            assert(forall|i: int| 0 <= i < 12 ==> #[trigger] read[i] == response@[i]);
            assert(good[0] == 72 && good[1] == 84 && good[2] == 84 && good[3] == 80 && good[4]
                == 47 && good[5] == 49 && good[6] == 46 && good[7] == 49 && good[8] == 32
                && good[9] == 50 && good[10] == 48 && good[11] == 48);
            assert(read[0] == 72 && read[1] == 84 && read[2] == 84 && read[3] == 80 && read[4]
                == 47 && read[5] == 49 && read[6] == 46 && read[7] == 49 && read[8] == 32
                && read[9] == 50 && read[10] == 48 && read[11] == 48);
        }
    }
    ok
}

/// The pause between two looks at something that is waited for, in milliseconds.
pub const WAIT_INTERVAL_MS: u64 = 50;

/// What to do while something is waited for.
#[derive(Clone, Copy, Debug, PartialEq, Eq, Structural)]
pub enum WaitStep {
    /// It has come about.
    Done,
    /// Pause, and look again.
    Pause { wait_ms: u64 },
    /// The time is up.
    Expired,
}

/// What to do while something is waited for.
pub open spec fn wait_step_for(elapsed_ms: u64, timeout_ms: u64, done: bool) -> WaitStep {
    match (elapsed_ms < timeout_ms, done) {
        (false, _) => WaitStep::Expired,
        (true, true) => WaitStep::Done,
        (true, false) => WaitStep::Pause { wait_ms: WAIT_INTERVAL_MS },
    }
}

/// What is waited for is given all of its time and no more: it is given up exactly
/// when the time is up, has come about only before that, and is looked at again after
/// a pause of 50 milliseconds until then.
pub proof fn waits_last_their_time(elapsed_ms: u64, timeout_ms: u64, done: bool)
    ensures
        wait_step_for(elapsed_ms, timeout_ms, done) is Expired <==> elapsed_ms >= timeout_ms,
        wait_step_for(elapsed_ms, timeout_ms, done) is Done <==> done && elapsed_ms < timeout_ms,
        wait_step_for(elapsed_ms, timeout_ms, done) matches WaitStep::Pause { wait_ms } ==> wait_ms
            == 50,
{
}

/// What to do while something is waited for. `elapsed_ms` is how long it has
/// been waited for, `done` whether it has come about, as was found in time.
pub fn wait_step(elapsed_ms: u64, timeout_ms: u64, done: bool) -> (step: WaitStep)
    ensures
        step == wait_step_for(elapsed_ms, timeout_ms, done),
        step == if elapsed_ms >= timeout_ms {
            WaitStep::Expired
        } else if done {
            WaitStep::Done
        } else {
            WaitStep::Pause { wait_ms: WAIT_INTERVAL_MS }
        },
{
    if elapsed_ms >= timeout_ms {
        WaitStep::Expired
    } else if done {
        WaitStep::Done
    } else {
        WaitStep::Pause { wait_ms: WAIT_INTERVAL_MS }
    }
}

/// Tells whether an address answers well. `answer` is what was read there in time;
/// none where nobody was reached, the request could not be sent, or no answer came.
pub fn http_health_probe(answer: Option<&Vec<u8>>) -> (healthy: bool)
    ensures
        healthy == (answer matches Some(response) && good_answer(response@)),
{
    match answer {
        Some(response) => health_response_is_ok(response),
        None => false,
    }
}

/// Tells whether a service answers at one of its addresses. `addresses` is how many
/// its URL has; none where the URL cannot be read, or has no address. `answers`
/// tells whether the address with a number answers well.
pub fn service_url_is_healthy<F: Fn(usize) -> bool>(addresses: Option<usize>, answers: F) -> (healthy:
    bool)
    requires
        addresses matches Some(count) ==> forall|i: usize|
            i < count ==> answers.requires((i,)),
    ensures
        if healthy {
            addresses matches Some(count) && exists|i: usize|
                {
                    &&& i < count
                    &&& #[trigger] answers.ensures((i,), true)
                    &&& forall|j: usize| j < i ==> #[trigger] answers.ensures((j,), false)
                }
        } else {
            addresses matches Some(count) ==> forall|i: usize|
                i < count ==> #[trigger] answers.ensures((i,), false)
        },
{
    let count: usize = match addresses {
        Some(count) => count,
        None => return false,
    };
    let mut i: usize = 0;
    while i < count
        invariant
            i <= count,
            addresses == Some(count),
            forall|j: usize| j < count ==> answers.requires((j,)),
            forall|j: usize| j < i ==> #[trigger] answers.ensures((j,), false),
        decreases count - i,
    {
        if answers(i) {
            return true;
        }
        i += 1;
    }
    false
}

/// A heartbeat is stale once it is more than a minute old, and not before; one that
/// is ahead of the clock is not.
pub proof fn heartbeats_last_a_minute(now: u64, heartbeat: u64)
    ensures
        heartbeat >= now ==> !stale(now, heartbeat),
        heartbeat < now ==> (stale(now, heartbeat) <==> now - heartbeat > 60),
{
}

/// One good look starts the count anew, and each failure in a row adds one to it.
pub proof fn failures_add_up(before: nat)
    ensures
        count_failure(before, true) == before + 1,
        count_failure(before, false) == 0,
{
}

/// A good answer starts with the status line of success and goes on; any other does
/// not.
pub proof fn good_answers_say_so(response: Seq<u8>)
    ensures
        good_answer(response) <==> response.len() > "HTTP/1.1 200"@.len() && forall|i: int|
            0 <= i < "HTTP/1.1 200"@.len() ==> #[trigger] response[i] as int
                == "HTTP/1.1 200"@[i] as int,
{
    reveal_strlit("HTTP/1.1 200");
    let line = good_status_line();
    let text = "HTTP/1.1 200"@;
    assert forall|i: int| 0 <= i < 12 implies line[i] as int == text[i] as int by {}
    if good_answer(response) {
        assert forall|i: int| 0 <= i < 12 implies #[trigger] response[i] as int == text[i] as int by {
            assert(response.take(12)[i] == line[i]);
        }
    }
    if response.len() > 12 && forall|i: int|
        0 <= i < 12 ==> #[trigger] response[i] as int == text[i] as int {
        assert forall|i: int| 0 <= i < 12 implies response.take(12)[i] == line[i] by {
            assert(response[i] as int == text[i] as int);
        }
        assert(response.take(12) =~= line);
    }
}

/// The request asks for the health of the service, closes the connection, and is
/// ended by an empty line.
pub proof fn probes_ask_for_the_health()
    ensures
        has_prefix(probe_request(), "GET /api/health HTTP/1.1\r\n"@),
        contains_text(probe_request(), "\r\nConnection: close\r\n"@),
        probe_request().skip(probe_request().len() - 4) == "\r\n\r\n"@,
{
    reveal_strlit("GET /api/health HTTP/1.1\r\nHost: 127.0.0.1\r\nConnection: close\r\n\r\n");
    reveal_strlit("GET /api/health HTTP/1.1\r\n");
    reveal_strlit("\r\nConnection: close\r\n");
    reveal_strlit("\r\n\r\n");
    let request = probe_request();
    let first = "GET /api/health HTTP/1.1\r\n"@;
    let close = "\r\nConnection: close\r\n"@;
    assert(request.subrange(0, first.len() as int) =~= first);
    let at: int = request.len() - 2 - close.len();
    assert(request.subrange(at, at + close.len()) =~= close);
    assert(occurs_at(request, close, at));
    assert(request.skip(request.len() - 4) =~= "\r\n\r\n"@);
}

/// The watchdog looks for the first time after 15 seconds and then every 5, and gives
/// an answer less time than that; a service that holds more than 4096 files is
/// started again.
pub proof fn watchdogs_look_in_time()
    ensures
        SERVER_HEALTH_WATCHDOG_INITIAL_DELAY_SECS == 15,
        SERVER_HEALTH_WATCHDOG_INTERVAL_SECS == 5,
        SERVER_HEALTH_WATCHDOG_PROBE_TIMEOUT_SECS == 3,
        SERVER_HEALTH_WATCHDOG_PROBE_TIMEOUT_SECS < SERVER_HEALTH_WATCHDOG_INTERVAL_SECS,
        SERVER_FD_RESTART_THRESHOLD == 4096,
        SERVICE_HEALTH_PROBE_TIMEOUT_SECS == 5,
{
}

} // verus!
