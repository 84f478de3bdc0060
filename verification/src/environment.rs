//! Configuration of the replayer, read from environment variables.
use vstd::prelude::*;
use vstd::string::StringExecFns;

use crate::string_map::StringMap;
use crate::text::decimal;
use crate::text::lowercase_is;
use crate::text::parse_u32;
use crate::text::starts_with;

verus! {

/// Default SSM parameter path under which per-queue replay configs are stored.
pub const DEFAULT_CONFIG_PATH: &'static str = "/sqs-replay/queues/";

/// Maximum allowed delay in seconds, matching the SQS message timer limit of
/// 15 minutes.
pub const MAXIMUM_DELAY_LIMIT_SECONDS: u32 = 15 * 60;

/// Environment configuration for the SQS replayer lambda.
#[derive(Debug, PartialEq, Eq)]
pub struct Environment {
    /// SSM parameter path under which per-queue replay configs are stored.
    pub config_path: String,
    /// Maximum replay attempts.
    pub max_attempts: u32,
    /// Multiplier for the backoff calculation, in seconds.
    pub backoff_rate_seconds: u32,
    /// Upper bound for the backoff delay, in seconds.
    pub maximum_delay_seconds: u32,
    /// Whether to add full jitter to the backoff delay.
    pub use_jitter: bool,
}

/// Configuration parsing and validation error.
#[derive(Debug)]
pub enum ConfigError {
    Invalid(String),
}

/// What an [`Environment`] holds.
pub struct EnvironmentView {
    pub config_path: Seq<char>,
    pub max_attempts: u32,
    pub backoff_rate_seconds: u32,
    pub maximum_delay_seconds: u32,
    pub use_jitter: bool,
}

impl View for Environment {
    type V = EnvironmentView;

    open spec fn view(&self) -> EnvironmentView {
        EnvironmentView {
            config_path: self.config_path@,
            max_attempts: self.max_attempts,
            backoff_rate_seconds: self.backoff_rate_seconds,
            maximum_delay_seconds: self.maximum_delay_seconds,
            use_jitter: self.use_jitter,
        }
    }
}

impl Clone for Environment {
    fn clone(&self) -> (copy: Self)
        ensures
            copy@ == self@,
    {
        Environment {
            config_path: self.config_path.clone(),
            max_attempts: self.max_attempts,
            backoff_rate_seconds: self.backoff_rate_seconds,
            maximum_delay_seconds: self.maximum_delay_seconds,
            use_jitter: self.use_jitter,
        }
    }
}

/// A set of environment variables.
pub type Variables = Map<Seq<char>, Seq<char>>;

/// A positive integer variable: the default when it is unset, and an error
/// unless it denotes a `u32` above zero.
pub open spec fn positive_int_in(values: Variables, name: Seq<char>, default: u32) -> Result<
    u32,
    Seq<char>,
> {
    if !values.contains_key(name) {
        Ok(default)
    } else {
        match crate::text::u32_in(values[name]) {
            Some(n) => if n > 0 {
                Ok(n)
            } else {
                Err(name + " must be a positive integer"@)
            },
            None => Err(name + " must be a positive integer"@),
        }
    }
}

/// A boolean variable: the default when it is unset, and an error unless it
/// is `true` or `false` in any mixture of upper and lower case.
pub open spec fn bool_flag_in(values: Variables, name: Seq<char>, default: bool) -> Result<
    bool,
    Seq<char>,
> {
    if !values.contains_key(name) {
        Ok(default)
    } else if crate::text::ascii_lowercase(values[name]) == "true"@ {
        Ok(true)
    } else if crate::text::ascii_lowercase(values[name]) == "false"@ {
        Ok(false)
    } else {
        Err(name + " must be either 'true' or 'false'"@)
    }
}

/// The maximum delay: a positive integer of at most
/// [`MAXIMUM_DELAY_LIMIT_SECONDS`], which is also its default.
pub open spec fn maximum_delay_in(values: Variables) -> Result<u32, Seq<char>> {
    match positive_int_in(values, "MAXIMUM_DELAY"@, MAXIMUM_DELAY_LIMIT_SECONDS) {
        Ok(delay) => if delay > MAXIMUM_DELAY_LIMIT_SECONDS {
            Err(
                "MAXIMUM_DELAY must be at most "@ + crate::text::decimal_text(
                    MAXIMUM_DELAY_LIMIT_SECONDS as nat,
                ) + " seconds"@,
            )
        } else {
            Ok(delay)
        },
        Err(message) => Err(message),
    }
}

/// The parameter path: the default when it is unset.
pub open spec fn config_path_in(values: Variables) -> Seq<char> {
    if values.contains_key("SSM_PARAMETER_PATH"@) {
        values["SSM_PARAMETER_PATH"@]
    } else {
        DEFAULT_CONFIG_PATH@
    }
}

/// Whether a parameter path starts at the root.
pub open spec fn is_absolute(path: Seq<char>) -> bool {
    path.len() > 0 && path[0] == '/'
}

/// The environment that a set of variables describes, or the message of the
/// first variable that is not valid, in the order in which they are read.
pub open spec fn environment_in(values: Variables) -> Result<EnvironmentView, Seq<char>> {
    if !is_absolute(config_path_in(values)) {
        Err("SSM_PARAMETER_PATH must start with '/'"@)
    } else {
        match positive_int_in(values, "MAX_ATTEMPTS"@, 5) {
            Err(message) => Err(message),
            Ok(max_attempts) => match positive_int_in(values, "BACKOFF_RATE"@, 30) {
                Err(message) => Err(message),
                Ok(backoff_rate_seconds) => match maximum_delay_in(values) {
                    Err(message) => Err(message),
                    Ok(maximum_delay_seconds) => match bool_flag_in(
                        values,
                        "BACKOFF_JITTER"@,
                        false,
                    ) {
                        Err(message) => Err(message),
                        Ok(use_jitter) => Ok(
                            EnvironmentView {
                                config_path: config_path_in(values),
                                max_attempts,
                                backoff_rate_seconds,
                                maximum_delay_seconds,
                                use_jitter,
                            },
                        ),
                    },
                },
            },
        }
    }
}

impl ConfigError {
    /// The message that the error carries.
    pub open spec fn text(self) -> Seq<char> {
        match self {
            ConfigError::Invalid(message) => message@,
        }
    }

    /// The error as it is shown to an operator.
    pub fn message(&self) -> (shown: String)
        ensures
            shown@ == "invalid configuration: "@ + self.text(),
    {
        match self {
            ConfigError::Invalid(message) => "invalid configuration: ".to_owned().concat(
                message.as_str(),
            ),
        }
    }
}

/// Whether a result of reading a variable is the expected value or the
/// expected message.
pub open spec fn reads_as<T>(result: Result<T, ConfigError>, expected: Result<T, Seq<char>>) -> bool {
    match result {
        Ok(value) => expected == Ok::<T, Seq<char>>(value),
        Err(error) => expected == Err::<T, Seq<char>>(error.text()),
    }
}

impl Environment {
    /// Parses and validates configuration from a set of environment values.
    pub fn parse(values: &StringMap<String>) -> (result: Result<Self, ConfigError>)
        ensures
            match result {
                Ok(environment) => environment_in(values.deep_view()) == Ok::<
                    EnvironmentView,
                    Seq<char>,
                >(environment@),
                Err(error) => environment_in(values.deep_view()) == Err::<
                    EnvironmentView,
                    Seq<char>,
                >(error.text()),
            },
    {
        let config_path = match values.get("SSM_PARAMETER_PATH") {
            Some(path) => path.clone(),
            None => DEFAULT_CONFIG_PATH.to_owned(),
        };
        if !starts_with(config_path.as_str(), '/') {
            return Err(
                ConfigError::Invalid("SSM_PARAMETER_PATH must start with '/'".to_owned()),
            );
        }
        let max_attempts = match positive_int(values, "MAX_ATTEMPTS", 5) {
            Ok(value) => value,
            Err(error) => return Err(error),
        };
        let backoff_rate_seconds = match positive_int(values, "BACKOFF_RATE", 30) {
            Ok(value) => value,
            Err(error) => return Err(error),
        };
        let maximum_delay_seconds = match maximum_delay(values) {
            Ok(value) => value,
            Err(error) => return Err(error),
        };
        let use_jitter = match bool_flag(values, "BACKOFF_JITTER", false) {
            Ok(value) => value,
            Err(error) => return Err(error),
        };
        Ok(
            Environment {
                config_path,
                max_attempts,
                backoff_rate_seconds,
                maximum_delay_seconds,
                use_jitter,
            },
        )
    }
}

/// Parses a positive integer environment variable, falling back to `default`
/// when unset.
fn positive_int(values: &StringMap<String>, name: &str, default: u32) -> (result: Result<
    u32,
    ConfigError,
>)
    ensures
        reads_as(result, positive_int_in(values.deep_view(), name@, default)),
{
    match values.get(name) {
        None => Ok(default),
        Some(value) => match parse_u32(value.as_str()) {
            Some(parsed) if parsed > 0 => Ok(parsed),
            _ => Err(ConfigError::Invalid(name.to_owned().concat(" must be a positive integer"))),
        },
    }
}

/// Parses a boolean flag, falling back to `default` when unset.
fn bool_flag(values: &StringMap<String>, name: &str, default: bool) -> (result: Result<
    bool,
    ConfigError,
>)
    ensures
        reads_as(result, bool_flag_in(values.deep_view(), name@, default)),
{
    match values.get(name) {
        None => Ok(default),
        Some(value) => if lowercase_is(value.as_str(), "true") {
            Ok(true)
        } else if lowercase_is(value.as_str(), "false") {
            Ok(false)
        } else {
            Err(
                ConfigError::Invalid(name.to_owned().concat(" must be either 'true' or 'false'")),
            )
        },
    }
}

/// Parses `MAXIMUM_DELAY`, enforcing the SQS message timer limit.
fn maximum_delay(values: &StringMap<String>) -> (result: Result<u32, ConfigError>)
    ensures
        reads_as(result, maximum_delay_in(values.deep_view())),
{
    match positive_int(values, "MAXIMUM_DELAY", MAXIMUM_DELAY_LIMIT_SECONDS) {
        Ok(delay) => if delay > MAXIMUM_DELAY_LIMIT_SECONDS {
            let limit = decimal(MAXIMUM_DELAY_LIMIT_SECONDS);
            Err(
                ConfigError::Invalid(
                    "MAXIMUM_DELAY must be at most ".to_owned().concat(limit.as_str()).concat(
                        " seconds",
                    ),
                ),
            )
        } else {
            Ok(delay)
        },
        Err(error) => Err(error),
    }
}

/// An environment that was accepted has an absolute parameter path, at least
/// one attempt, a backoff rate of at least one second, and a maximum delay
/// between one second and the SQS message timer limit.
pub proof fn accepted_environment_is_valid(values: Variables)
    requires
        environment_in(values) is Ok,
    ensures
        ({
            let environment = environment_in(values)->Ok_0;
            &&& is_absolute(environment.config_path)
            &&& environment.max_attempts >= 1
            &&& environment.backoff_rate_seconds >= 1
            &&& 1 <= environment.maximum_delay_seconds <= MAXIMUM_DELAY_LIMIT_SECONDS
        }),
{
}

/// Variables other than the five that are read do not matter.
pub proof fn other_variables_do_not_matter(values: Variables, name: Seq<char>, value: Seq<char>)
    requires
        name != "SSM_PARAMETER_PATH"@,
        name != "MAX_ATTEMPTS"@,
        name != "BACKOFF_RATE"@,
        name != "MAXIMUM_DELAY"@,
        name != "BACKOFF_JITTER"@,
    ensures
        environment_in(values.insert(name, value)) == environment_in(values),
{
}

/// Each variable takes effect: an environment that was accepted has what the
/// variables say, and the default for each that is not set.
pub proof fn every_variable_takes_effect(values: Variables)
    requires
        environment_in(values) is Ok,
    ensures
        ({
            let environment = environment_in(values)->Ok_0;
            &&& environment.config_path == if values.contains_key("SSM_PARAMETER_PATH"@) {
                values["SSM_PARAMETER_PATH"@]
            } else {
                "/sqs-replay/queues/"@
            }
            &&& if values.contains_key("MAX_ATTEMPTS"@) {
                crate::text::u32_in(values["MAX_ATTEMPTS"@]) == Some(environment.max_attempts)
            } else {
                environment.max_attempts == 5
            }
            &&& if values.contains_key("BACKOFF_RATE"@) {
                crate::text::u32_in(values["BACKOFF_RATE"@]) == Some(
                    environment.backoff_rate_seconds,
                )
            } else {
                environment.backoff_rate_seconds == 30
            }
            &&& if values.contains_key("MAXIMUM_DELAY"@) {
                crate::text::u32_in(values["MAXIMUM_DELAY"@]) == Some(
                    environment.maximum_delay_seconds,
                )
            } else {
                environment.maximum_delay_seconds == 900
            }
            &&& if values.contains_key("BACKOFF_JITTER"@) {
                crate::text::ascii_lowercase(values["BACKOFF_JITTER"@]) == if environment.use_jitter {
                    "true"@
                } else {
                    "false"@
                }
            } else {
                !environment.use_jitter
            }
        }),
{
}

/// An environment is accepted exactly when each variable that is set is valid,
/// and otherwise the message is that of the first one that is not.
pub proof fn environment_is_accepted_when_all_is_valid(values: Variables)
    ensures
        ({
            let path = values.contains_key("SSM_PARAMETER_PATH"@) ==> {
                &&& values["SSM_PARAMETER_PATH"@].len() > 0
                &&& values["SSM_PARAMETER_PATH"@][0] == '/'
            };
            let attempts = values.contains_key("MAX_ATTEMPTS"@) ==> {
                &&& crate::text::u32_in(values["MAX_ATTEMPTS"@]) is Some
                &&& crate::text::u32_in(values["MAX_ATTEMPTS"@])->0 > 0
            };
            let rate = values.contains_key("BACKOFF_RATE"@) ==> {
                &&& crate::text::u32_in(values["BACKOFF_RATE"@]) is Some
                &&& crate::text::u32_in(values["BACKOFF_RATE"@])->0 > 0
            };
            let delay = values.contains_key("MAXIMUM_DELAY"@) ==> {
                &&& crate::text::u32_in(values["MAXIMUM_DELAY"@]) is Some
                &&& crate::text::u32_in(values["MAXIMUM_DELAY"@])->0 > 0
            };
            let limit = values.contains_key("MAXIMUM_DELAY"@)
                ==> crate::text::u32_in(values["MAXIMUM_DELAY"@])->0 <= 900;
            let jitter = values.contains_key("BACKOFF_JITTER"@) ==> {
                ||| crate::text::ascii_lowercase(values["BACKOFF_JITTER"@]) == "true"@
                ||| crate::text::ascii_lowercase(values["BACKOFF_JITTER"@]) == "false"@
            };
            let read = environment_in(values);
            if !path {
                read == Err::<EnvironmentView, Seq<char>>("SSM_PARAMETER_PATH must start with '/'"@)
            } else if !attempts {
                read == Err::<EnvironmentView, Seq<char>>(
                    "MAX_ATTEMPTS"@ + " must be a positive integer"@,
                )
            } else if !rate {
                read == Err::<EnvironmentView, Seq<char>>(
                    "BACKOFF_RATE"@ + " must be a positive integer"@,
                )
            } else if !delay {
                read == Err::<EnvironmentView, Seq<char>>(
                    "MAXIMUM_DELAY"@ + " must be a positive integer"@,
                )
            } else if !limit {
                read == Err::<EnvironmentView, Seq<char>>(
                    "MAXIMUM_DELAY must be at most "@ + crate::text::decimal_text(900)
                        + " seconds"@,
                )
            } else if !jitter {
                read == Err::<EnvironmentView, Seq<char>>(
                    "BACKOFF_JITTER"@ + " must be either 'true' or 'false'"@,
                )
            } else {
                read is Ok
            }
        }),
{
    reveal_strlit("/sqs-replay/queues/");
}

/// Two environments are seen alike exactly when all that they hold is alike.
pub proof fn environment_shows_all_it_holds(a: Environment, b: Environment)
    ensures
        a@ == b@ <==> {
            &&& a.config_path@ == b.config_path@
            &&& a.max_attempts == b.max_attempts
            &&& a.backoff_rate_seconds == b.backoff_rate_seconds
            &&& a.maximum_delay_seconds == b.maximum_delay_seconds
            &&& a.use_jitter == b.use_jitter
        },
        a@.max_attempts == a.max_attempts,
        a@.backoff_rate_seconds == a.backoff_rate_seconds,
        a@.maximum_delay_seconds == a.maximum_delay_seconds,
        a@.use_jitter == a.use_jitter,
        a@.config_path == a.config_path@,
{
}

/// An error shows the message that it was made with.
pub proof fn error_shows_its_message(message: String)
    ensures
        ConfigError::Invalid(message).text() == message@,
{
}

} // verus!
