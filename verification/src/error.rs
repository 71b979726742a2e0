//! Failures of the engine.
use vstd::prelude::*;

verus! {

/// Why an operation of the engine failed. Times are in nanoseconds.
#[derive(Debug, PartialEq, Eq)]
pub enum EngineError {
    /// A request to a provider failed, by the message of its transport.
    Llm(String),
    /// A response could not be read.
    Stream(String),
    /// A stream went silent for this long.
    StreamIdleTimeout(u128),
    /// The model answered with nothing.
    EmptyResponse,
    /// The server found the model looping, with what triggered it.
    DoomLoopServer(String),
    /// The routing configuration does not hold together.
    InvalidRoutingConfig(String),
    /// There is no such pool.
    RouteNotConfigured { pool_id: String },
    /// Every provider of the visit plan was tried.
    ProviderAttemptsExhausted { pool_id: String, tried_provider_ids: Vec<String> },
    /// Any other failure, by its message.
    Other(String),
}

/// What a [`EngineError`] holds.
#[verifier::ext_equal]
pub enum EngineErrorView {
    Llm(Seq<char>),
    Stream(Seq<char>),
    StreamIdleTimeout(u128),
    EmptyResponse,
    DoomLoopServer(Seq<char>),
    InvalidRoutingConfig(Seq<char>),
    RouteNotConfigured { pool_id: Seq<char> },
    ProviderAttemptsExhausted { pool_id: Seq<char>, tried_provider_ids: Seq<Seq<char>> },
    Other(Seq<char>),
}

impl DeepView for EngineError {
    type V = EngineErrorView;

    open spec fn deep_view(&self) -> EngineErrorView {
        match *self {
            EngineError::Llm(a) => EngineErrorView::Llm(a@),
            EngineError::Stream(a) => EngineErrorView::Stream(a@),
            EngineError::StreamIdleTimeout(a) => EngineErrorView::StreamIdleTimeout(a),
            EngineError::EmptyResponse => EngineErrorView::EmptyResponse,
            EngineError::DoomLoopServer(a) => EngineErrorView::DoomLoopServer(a@),
            EngineError::InvalidRoutingConfig(a) => EngineErrorView::InvalidRoutingConfig(a@),
            EngineError::RouteNotConfigured { pool_id } => EngineErrorView::RouteNotConfigured {
                pool_id: pool_id@,
            },
            EngineError::ProviderAttemptsExhausted {
                pool_id,
                tried_provider_ids,
            } => EngineErrorView::ProviderAttemptsExhausted {
                pool_id: pool_id@,
                tried_provider_ids: tried_provider_ids.deep_view(),
            },
            EngineError::Other(a) => EngineErrorView::Other(a@),
        }
    }
}

impl Clone for EngineError {
    fn clone(&self) -> (out: EngineError)
        ensures
            out.deep_view() == self.deep_view(),
    {
        match self {
            EngineError::Llm(a) => EngineError::Llm(a.clone()),
            EngineError::Stream(a) => EngineError::Stream(a.clone()),
            EngineError::StreamIdleTimeout(a) => EngineError::StreamIdleTimeout(*a),
            EngineError::EmptyResponse => EngineError::EmptyResponse,
            EngineError::DoomLoopServer(a) => EngineError::DoomLoopServer(a.clone()),
            EngineError::InvalidRoutingConfig(a) => EngineError::InvalidRoutingConfig(a.clone()),
            EngineError::RouteNotConfigured { pool_id } => EngineError::RouteNotConfigured {
                pool_id: pool_id.clone(),
            },
            EngineError::ProviderAttemptsExhausted { pool_id, tried_provider_ids } => {
                let tried_provider_ids_copy = tried_provider_ids.clone();
                assert(tried_provider_ids_copy.deep_view() =~= tried_provider_ids.deep_view());
                EngineError::ProviderAttemptsExhausted {
                    pool_id: pool_id.clone(),
                    tried_provider_ids: tried_provider_ids_copy,
                }
            },
            EngineError::Other(a) => EngineError::Other(a.clone()),
        }
    }
}

/// An outcome by what it holds.
pub open spec fn outcome_of<T: DeepView>(outcome: Result<T, EngineError>) -> Result<
    T::V,
    EngineErrorView,
> {
    match outcome {
        Ok(value) => Ok(value.deep_view()),
        Err(error) => Err(error.deep_view()),
    }
}

/// What the views of these values show is what the values hold, field by field.
pub proof fn law_views_leave_nothing_out(
    engine_error: EngineError,
)
    ensures
        match engine_error {
            EngineError::Llm(a) => engine_error.deep_view() == EngineErrorView::Llm(a@),
            EngineError::Stream(a) => engine_error.deep_view() == EngineErrorView::Stream(a@),
            EngineError::StreamIdleTimeout(a) => engine_error.deep_view()
                == EngineErrorView::StreamIdleTimeout(a),
            EngineError::EmptyResponse => engine_error.deep_view()
                == EngineErrorView::EmptyResponse,
            EngineError::DoomLoopServer(a) => engine_error.deep_view()
                == EngineErrorView::DoomLoopServer(a@),
            EngineError::InvalidRoutingConfig(a) => engine_error.deep_view()
                == EngineErrorView::InvalidRoutingConfig(a@),
            EngineError::RouteNotConfigured { pool_id } => engine_error.deep_view()
                == (EngineErrorView::RouteNotConfigured {
                pool_id: pool_id@,
            }),
            EngineError::ProviderAttemptsExhausted {
                pool_id,
                tried_provider_ids,
            } => engine_error.deep_view() == (EngineErrorView::ProviderAttemptsExhausted {
                pool_id: pool_id@,
                tried_provider_ids: tried_provider_ids.deep_view(),
            }),
            EngineError::Other(a) => engine_error.deep_view() == EngineErrorView::Other(a@),
        },
{
}

/// An outcome is a success with what the value holds, or a failure with what the error
/// holds.
pub proof fn law_outcomes_hold_value_or_error<T: DeepView>(value: T, error: EngineError)
    ensures
        outcome_of(Ok::<T, EngineError>(value)) == Ok::<T::V, EngineErrorView>(value.deep_view()),
        outcome_of(Err::<T, EngineError>(error)) == Err::<T::V, EngineErrorView>(
            error.deep_view(),
        ),
{
}

} // verus!
