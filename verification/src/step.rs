use vstd::prelude::*;
use crate::text::res_view;
use crate::expect::ExpectType;
use crate::shell::BashVariant;
use crate::shell::CmdOutput;
use crate::shell::bash_run_spec;
use crate::shell::bash_result;
use crate::http::HttpVariant;
use crate::http::http_run_ok;
use crate::system::SystemVariant;
use crate::system::system_run_ok;
use crate::system::run_system;
use crate::jar::CookieJar;

verus! {

/// The recorded result and wall-clock duration of one step execution.
#[derive(Debug, PartialEq)]
pub struct Outcome {
    pub result: Result<String, String>,
    pub duration_nanos: u64,
}

/// The action a step performs to produce raw output.
#[derive(Clone, Debug, PartialEq)]
pub enum RunType {
    Value(String),
    Bash(BashVariant),
    Http(HttpVariant),
    System(SystemVariant),
}

#[verifier::external_type_specification]
#[verifier::external_body]
pub struct ExInstant(std::time::Instant);

/// Relies on std::time::Instant::now: the current monotonic instant.
#[verifier::external_body]
fn now_instant() -> (t: std::time::Instant) {
    std::time::Instant::now()
}

/// Relies on Instant::elapsed and Duration::as_nanos: the nanoseconds since
/// `start`, saturated to 64 bits. The value depends on the clock.
#[verifier::external_body]
fn elapsed_nanos(start: &std::time::Instant) -> (n: u64) {
    u64::try_from(start.elapsed().as_nanos()).unwrap_or(u64::MAX)
}

impl RunType {
    /// Performs the action. Shell commands are spawned by the caller, who
    /// hands in what the spawn produced; every other action is carried out
    /// here, against the shared cookie jar.
    pub fn run(&self, jar: &CookieJar, spawn: Option<Result<CmdOutput, String>>) -> (r: Result<
        String,
        String,
    >)
        requires
            self is Bash ==> spawn is Some,
        ensures
            (match *self {
                RunType::Value(v) => res_view(r) == Result::<Seq<char>, Seq<char>>::Ok(v@),
                RunType::Bash(b) => res_view(r) == bash_run_spec(b, spawn->Some_0),
                RunType::Http(h) => http_run_ok(
                    h.url_spec(),
                    h.get_output_spec(),
                    h.status_spec(),
                    res_view(r),
                ),
                RunType::System(sv) => system_run_ok(sv, res_view(r)),
            }),
    {
        match self {
            RunType::Value(v) => Result::Ok(v.clone()),
            RunType::Bash(b) => {
                let sp = spawn.unwrap();
                bash_result(b, &sp)
            },
            RunType::Http(h) => h.run(jar),
            RunType::System(sv) => run_system(sv),
        }
    }

    /// Performs the action, checks its output against the expectation, and
    /// wraps the terminal result with the elapsed wall-clock time. A failure
    /// of the run stage passes through untouched; a success is piped through
    /// the evaluator. The caller may hand in the instant its own work started
    /// (a shell spawn performed before this call), so the stored duration
    /// covers the whole execution.
    pub fn execute(
        &self,
        expect: &ExpectType,
        jar: &CookieJar,
        spawn: Option<Result<CmdOutput, String>>,
        started: Option<std::time::Instant>,
    ) -> (o: Outcome)
        requires
            self is Bash ==> spawn is Some,
        ensures
            (match *self {
                RunType::Value(v) => res_view(o.result) == expect.check_spec(v@),
                RunType::Bash(b) => match bash_run_spec(b, spawn->Some_0) {
                    Result::Ok(t) => res_view(o.result) == expect.check_spec(t),
                    Result::Err(m) => res_view(o.result) == Result::<Seq<char>, Seq<char>>::Err(m),
                },
                RunType::Http(h) => {
                    ||| exists|raw: Seq<char>|
                        http_run_ok(
                            h.url_spec(),
                            h.get_output_spec(),
                            h.status_spec(),
                            Result::<Seq<char>, Seq<char>>::Ok(raw),
                        ) && res_view(o.result) == #[trigger] expect.check_spec(raw)
                    ||| (res_view(o.result) matches Result::Err(e) && http_run_ok(
                        h.url_spec(),
                        h.get_output_spec(),
                        h.status_spec(),
                        Result::<Seq<char>, Seq<char>>::Err(e),
                    ))
                },
                RunType::System(sv) => {
                    ||| exists|raw: Seq<char>|
                        system_run_ok(sv, Result::<Seq<char>, Seq<char>>::Ok(raw)) && res_view(
                            o.result,
                        ) == #[trigger] expect.check_spec(raw)
                    ||| (res_view(o.result) matches Result::Err(e) && system_run_ok(
                        sv,
                        Result::<Seq<char>, Seq<char>>::Err(e),
                    ))
                },
            }),
    {
        let start = match started {
            Option::Some(t) => t,
            Option::None => now_instant(),
        };
        let run_r = self.run(jar, spawn);
        let result = match run_r {
            Result::Ok(val) => expect.check(val.as_str()),
            Result::Err(e) => Result::Err(e),
        };
        Outcome { result, duration_nanos: elapsed_nanos(&start) }
    }
}

/// One named check unit: its action, its expectation, its dependency edges,
/// and the outcome of its last execution, if any.
#[derive(Debug, PartialEq)]
pub struct Step {
    pub name: String,
    pub description: Option<String>,
    pub run: RunType,
    pub expect: ExpectType,
    pub outcome: Option<Outcome>,
    pub require: Vec<String>,
    pub required_by: Vec<String>,
}

impl Step {
    /// Milliseconds of the stored outcome's duration; 0 when the step has not
    /// been executed yet.
    pub fn get_duration_ms(&self) -> (r: u64)
        ensures
            r == (match self.outcome {
                Option::Some(o) => o.duration_nanos / 1000000,
                Option::None => 0,
            }),
    {
        match &self.outcome {
            Option::Some(o) => o.duration_nanos / 1000000,
            Option::None => 0,
        }
    }
}

} // verus!
