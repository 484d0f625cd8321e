//! Turning a request's optional payload into what a handler is called with.
use vstd::prelude::*;
use crate::error::Error;

verus! {

/// How a handler takes its parameters; chosen when the handler is registered.
#[derive(Debug, Clone, Copy, PartialEq, Eq, Structural)]
pub enum ParamsKind {
    /// The handler takes no parameters; any payload is ignored.
    NoParams,
    /// The handler needs a payload.
    Required,
    /// The handler takes the parameter type's default when there is no payload.
    Defaultable,
}

/// What the handler is called with.
#[derive(Debug, Clone, PartialEq, Eq)]
pub enum HandlerInput<V> {
    /// No parameters.
    NoParams,
    /// The payload, to be deserialised into the parameter type.
    Decode(V),
    /// The parameter type's default value.
    Default,
}

/// The input that a handler of kind `kind` gets for `params`, or the error.
pub open spec fn params_spec<V>(kind: ParamsKind, params: Option<V>) -> Result<HandlerInput<V>, Error> {
    match kind {
        ParamsKind::NoParams => Ok(HandlerInput::NoParams),
        ParamsKind::Required => match params {
            Some(v) => Ok(HandlerInput::Decode(v)),
            None => Err(Error::RpcIntoParamsMissing),
        },
        ParamsKind::Defaultable => match params {
            Some(v) => Ok(HandlerInput::Decode(v)),
            None => Ok(HandlerInput::Default),
        },
    }
}

/// Applies the parameter policy `kind` to the optional payload `params`.
pub fn into_params<V>(kind: ParamsKind, params: Option<V>) -> (r: Result<HandlerInput<V>, Error>)
    ensures
        r == params_spec(kind, params),
{
    match kind {
        ParamsKind::NoParams => Ok(HandlerInput::NoParams),
        ParamsKind::Required => match params {
            Some(v) => Ok(HandlerInput::Decode(v)),
            None => Err(Error::RpcIntoParamsMissing),
        },
        ParamsKind::Defaultable => match params {
            Some(v) => Ok(HandlerInput::Decode(v)),
            None => Ok(HandlerInput::Default),
        },
    }
}

/// Without a payload, a handler that requires parameters fails with
/// `RpcIntoParamsMissing`, and one with defaultable parameters is called with
/// the default value.
pub proof fn lemma_param_policy<V>()
    ensures
        params_spec::<V>(ParamsKind::Required, None) == Err::<HandlerInput<V>, Error>(
            Error::RpcIntoParamsMissing,
        ),
        params_spec::<V>(ParamsKind::Defaultable, None) == Ok::<HandlerInput<V>, Error>(
            HandlerInput::Default,
        ),
{
}

/// A parameter type that declares its policy; a handler taking it is
/// registered with that policy (`RpcHandlerWrapper::for_params`).
pub trait IntoParams {
    /// The policy that the type declares.
    spec fn spec_params_kind() -> ParamsKind;

    fn params_kind() -> (r: ParamsKind)
        ensures
            r == Self::spec_params_kind(),
    ;
}

/// Marks a parameter type that takes its default when the payload is absent.
pub trait IntoDefaultParams {}

/// Params for any create call.
pub struct ParamsForCreate<D> {
    pub data: D,
}

/// Params for any update call.
pub struct ParamsForUpdate<D> {
    pub id: i64,
    pub data: D,
}

/// Params for any call on one entity.
#[derive(Debug, Clone, Copy, PartialEq, Eq, Structural)]
pub struct ParamsIded {
    pub id: i64,
}

/// Params for any list call.
pub struct ParamsList<F> {
    pub filter: Option<F>,
}

impl<D> IntoParams for ParamsForCreate<D> {
    open spec fn spec_params_kind() -> ParamsKind {
        ParamsKind::Required
    }

    fn params_kind() -> (r: ParamsKind) {
        ParamsKind::Required
    }
}

impl<D> IntoParams for ParamsForUpdate<D> {
    open spec fn spec_params_kind() -> ParamsKind {
        ParamsKind::Required
    }

    fn params_kind() -> (r: ParamsKind) {
        ParamsKind::Required
    }
}

impl IntoParams for ParamsIded {
    open spec fn spec_params_kind() -> ParamsKind {
        ParamsKind::Required
    }

    fn params_kind() -> (r: ParamsKind) {
        ParamsKind::Required
    }
}

impl<F> IntoParams for ParamsList<F> {
    open spec fn spec_params_kind() -> ParamsKind {
        ParamsKind::Defaultable
    }

    fn params_kind() -> (r: ParamsKind) {
        ParamsKind::Defaultable
    }
}

impl<F> IntoDefaultParams for ParamsList<F> {}

impl<F> Default for ParamsList<F> {
    /// No filter.
    fn default() -> (r: Self)
        ensures
            r.filter is None,
    {
        ParamsList { filter: None }
    }
}

} // verus!
