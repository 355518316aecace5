use vstd::prelude::*;
use vstd::string::StringExecFns;
use crate::decimal::NumCmp;
use crate::decimal::num_cmp;
use crate::decimal::num_cmp_of;

verus! {

/// The comparison applied to a run's raw output to decide pass or fail.
/// Thresholds are decimal texts, compared numerically.
#[derive(Clone, Debug, PartialEq)]
pub enum ExpectType {
    Anything,
    Matches(String),
    GreaterThan(String),
    LessThan(String),
}

impl Default for ExpectType {
    fn default() -> (r: Self)
        ensures
            r == ExpectType::Anything,
    {
        ExpectType::Anything
    }
}

/// Whether `pattern` compiles as a regular expression, and the description of
/// its compile error when it does not: a function of the pattern alone.
pub uninterp spec fn regex_compile_err(pattern: Seq<char>) -> Option<Seq<char>>;

/// Whether the regular expression `pattern` matches anywhere inside `text`: a
/// function of the two texts alone.
pub uninterp spec fn regex_match_at(pattern: Seq<char>, text: Seq<char>) -> bool;

/// Relies on regex::Regex::new and regex::Regex::is_match: whether a pattern
/// compiles, its compile error's description, and whether it matches anywhere
/// in a text depend on the pattern and the text alone.
#[verifier::external_body]
fn regex_match(pattern: &str, text: &str) -> (r: Result<bool, String>)
    ensures
        match r {
            Result::Ok(m) => regex_compile_err(pattern@) is None && m == regex_match_at(
                pattern@,
                text@,
            ),
            Result::Err(e) => regex_compile_err(pattern@) == Option::Some(e@),
        },
{
    match regex::Regex::new(pattern) {
        Result::Ok(re) => Result::Ok(re.is_match(text)),
        Result::Err(err) => Result::Err(format!("{:?}", err)),
    }
}

pub open spec fn msg_regex_err(pattern: Seq<char>, err: Seq<char>) -> Seq<char> {
    "Could not create regex from `"@ + pattern + "`.  Error is:"@ + err
}

pub open spec fn msg_no_match(pattern: Seq<char>) -> Seq<char> {
    "Not matched against `"@ + pattern + "`"@
}

pub open spec fn msg_not_numeric(threshold: Seq<char>) -> Seq<char> {
    "Could not parse `"@ + threshold + "` as a number"@
}

pub open spec fn msg_not_greater(val: Seq<char>, threshold: Seq<char>) -> Seq<char> {
    "the value `"@ + val + "` is less than `"@ + threshold + "`"@
}

pub open spec fn msg_not_less(val: Seq<char>, threshold: Seq<char>) -> Seq<char> {
    "the value `"@ + val + "` is greater than `"@ + threshold + "`"@
}

impl ExpectType {
    /// What checking raw output against this expectation yields: the final
    /// payload on success, the failure message otherwise.
    pub open spec fn check_spec(&self, raw: Seq<char>) -> Result<Seq<char>, Seq<char>> {
        match *self {
            ExpectType::Anything => Result::Ok(raw),
            ExpectType::Matches(p) => match regex_compile_err(p@) {
                Option::Some(d) => Result::Err(msg_regex_err(p@, d)),
                Option::None => if regex_match_at(p@, raw) {
                    Result::Ok(Seq::<char>::empty())
                } else {
                    Result::Err(msg_no_match(p@))
                },
            },
            ExpectType::GreaterThan(t) => match num_cmp_of(raw, t@) {
                NumCmp::NotNum => Result::Err(msg_not_numeric(t@)),
                NumCmp::Gt => Result::Ok(raw),
                _ => Result::Err(msg_not_greater(raw, t@)),
            },
            ExpectType::LessThan(t) => match num_cmp_of(raw, t@) {
                NumCmp::NotNum => Result::Err(msg_not_numeric(t@)),
                NumCmp::Lt => Result::Ok(raw),
                _ => Result::Err(msg_not_less(raw, t@)),
            },
        }
    }

    /// Checks raw output against this expectation: Anything passes the text
    /// through, Matches tests the pattern anywhere in the text and discards
    /// the payload, GreaterThan and LessThan compare the text numerically
    /// with the threshold. The failure message on a threshold parse failure
    /// names the threshold, not the value.
    pub fn check(&self, val: &str) -> (r: Result<String, String>)
        ensures
            crate::text::res_view(r) == self.check_spec(val@),
    {
        match self {
            ExpectType::Anything => Result::Ok(String::from_str(val)),
            ExpectType::Matches(pattern) => {
                match regex_match(pattern.as_str(), val) {
                    Result::Ok(true) => Result::Ok(String::new()),
                    Result::Ok(false) => {
                        let mut m = String::from_str("Not matched against `");
                        m.append(pattern.as_str());
                        m.append("`");
                        Result::Err(m)
                    },
                    Result::Err(err) => {
                        let mut m = String::from_str("Could not create regex from `");
                        m.append(pattern.as_str());
                        m.append("`.  Error is:");
                        m.append(err.as_str());
                        Result::Err(m)
                    },
                }
            },
            ExpectType::GreaterThan(threshold) => {
                match num_cmp(val, threshold.as_str()) {
                    NumCmp::NotNum => {
                        let mut m = String::from_str("Could not parse `");
                        m.append(threshold.as_str());
                        m.append("` as a number");
                        Result::Err(m)
                    },
                    NumCmp::Gt => Result::Ok(String::from_str(val)),
                    _ => {
                        let mut m = String::from_str("the value `");
                        m.append(val);
                        m.append("` is less than `");
                        m.append(threshold.as_str());
                        m.append("`");
                        Result::Err(m)
                    },
                }
            },
            ExpectType::LessThan(threshold) => {
                match num_cmp(val, threshold.as_str()) {
                    NumCmp::NotNum => {
                        let mut m = String::from_str("Could not parse `");
                        m.append(threshold.as_str());
                        m.append("` as a number");
                        Result::Err(m)
                    },
                    NumCmp::Lt => Result::Ok(String::from_str(val)),
                    _ => {
                        let mut m = String::from_str("the value `");
                        m.append(val);
                        m.append("` is greater than `");
                        m.append(threshold.as_str());
                        m.append("`");
                        Result::Err(m)
                    },
                }
            },
        }
    }
}

} // verus!
