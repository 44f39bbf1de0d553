//! Retrying under a policy that a registry holds by name.

use crate::backoff::BackoffPolicy;
use crate::policy::{lookup, PolicyRegistry};
use crate::retry::{
    headline,
    witnessed,
    DefaultRetryBuilder,
    RetryError,
    RetryOutcome,
    Retryable,
    Unset,
};
use crate::sleep::Sleeper;
use vstd::prelude::*;
use vstd::string::StringExecFns;

verus! {

/// Why a retry by policy name failed.
#[derive(Debug)]
pub enum DslError<E> {
    /// The registry holds no policy of this name.
    PolicyMissing(String),
    /// The session ran and ended in failure.
    Execution(RetryError<E>),
}

/// Why a retry by policy name failed, in words, up to the cause.
pub open spec fn dsl_headline<E>(error: DslError<E>) -> Seq<char> {
    match error {
        DslError::PolicyMissing(name) => "retry policy '"@ + name@ + "' is not registered"@,
        DslError::Execution(failure) => headline(failure@),
    }
}

impl<E> DslError<E> {
    /// The error in words; the cause of a failed session as `show` words it.
    pub fn message<R: Fn(&E) -> String>(&self, show: R) -> (text: String)
        requires
            self matches DslError::Execution(failure) ==> (failure@.cause matches Some(cause)
                ==> call_requires(show, (&cause,))),
        ensures
            match self {
                DslError::Execution(failure) => match failure@.cause {
                    Some(cause) => exists|shown: String|
                        call_ensures(show, (&cause,), shown) && text@ == dsl_headline(*self) + ": "@
                            + shown@,
                    None => text@ == dsl_headline(*self),
                },
                DslError::PolicyMissing(_) => text@ == dsl_headline(*self),
            },
    {
        match self {
            DslError::PolicyMissing(name) => {
                let mut text: String = String::from_str("retry policy '");
                text.append(name.as_str());
                text.append("' is not registered");
                assert(text@ =~= dsl_headline(*self));
                text
            },
            DslError::Execution(failure) => {
                let text: String = failure.message(show);
                assert(dsl_headline(*self) == headline(failure@));
                text
            },
        }
    }
}

impl<E> From<RetryError<E>> for DslError<E> {
    fn from(value: RetryError<E>) -> (r: Self) {
        DslError::Execution(value)
    }
}

impl<E> vstd::std_specs::convert::FromSpecImpl<RetryError<E>> for DslError<E> {
    open spec fn obeys_from_spec() -> bool {
        true
    }

    open spec fn from_spec(value: RetryError<E>) -> Self {
        DslError::Execution(value)
    }
}

/// Starts a retry session for `operation` under the policy that `registry`
/// holds as `policy_name`.
pub fn builder_for_policy<F, T, E>(registry: &PolicyRegistry, policy_name: &str, operation: F) -> (r:
    Result<DefaultRetryBuilder<F, BackoffPolicy, T, E>, DslError<E>>) where
    F: FnMut() -> Result<T, E>,

    requires
        registry.wf(),
    ensures
        match r {
            Ok(builder) => lookup(registry@, policy_name@) == Some(builder.strategy())
                && builder.operation() == operation,
            Err(DslError::PolicyMissing(name)) => lookup(registry@, policy_name@) is None && name@
                == policy_name@,
            Err(DslError::Execution(_)) => false,
        },
{
    match registry.get(policy_name) {
        Some(policy) => Ok(operation.retry(policy)),
        None => Err(DslError::PolicyMissing(String::from_str(policy_name))),
    }
}

/// Runs `operation` under the policy that `registry` holds as `policy_name`,
/// pausing through `sleeper`.
pub fn retry_with_policy<F, T, E, Sl>(
    registry: &PolicyRegistry,
    policy_name: &str,
    operation: F,
    sleeper: Sl,
) -> (r: Result<RetryOutcome<T>, DslError<E>>) where
    F: FnMut() -> Result<T, E>,
    Sl: Sleeper,

    requires
        registry.wf(),
        call_requires(operation, ()),
        forall|ms: u64| sleeper.can_sleep(ms),
    ensures
        match lookup(registry@, policy_name@) {
            None => r matches Err(DslError::PolicyMissing(name)) && name@ == policy_name@,
            Some(policy) => match r {
                Ok(outcome) => witnessed(
                    operation,
                    policy,
                    Unset,
                    Unset,
                    Unset,
                    Unset,
                    sleeper,
                    Ok(outcome),
                ),
                Err(DslError::Execution(failure)) => witnessed(
                    operation,
                    policy,
                    Unset,
                    Unset,
                    Unset,
                    Unset,
                    sleeper,
                    Err(failure),
                ),
                Err(DslError::PolicyMissing(_)) => false,
            },
        },
{
    match builder_for_policy(registry, policy_name, operation) {
        Ok(builder) => match builder.call_with_sleeper(sleeper) {
            Ok(outcome) => Ok(outcome),
            Err(failure) => Err(DslError::Execution(failure)),
        },
        Err(missing) => Err(missing),
    }
}

} // verus!
