//! Projecting a value, and what a projection counts.

use crate::error::{Error, Fault};
use crate::json::collapsed::{collapse_json, collapsed, collapsed_count, collapsed_item_count};
use crate::json::keys::{key_entries, keys_projected, listed_keys, project_keys};
use crate::json::options::JsonKeyOrder;
use crate::json::projection::{count_nodes, node_count, JsonProjection, ProjectionState};
use crate::json::value::JsonValue;
use crate::json::view::{item_views_are, JsonView};
use vstd::prelude::*;

verus! {

/// How many items a projection of a whole value has.
pub open spec fn projected_count(value: JsonView, projection: JsonProjection, sample: usize) -> nat {
    match projection {
        JsonProjection::Value => node_count(value) as nat,
        JsonProjection::Schema => node_count(value) as nat,
        JsonProjection::Collapsed => collapsed_count(value, sample) as nat,
        JsonProjection::Keys => listed_keys(value, None, JsonKeyOrder::Pointer).len(),
    }
}

/// How many items a projection of a whole value has.
pub fn projection_item_count(
    value: &JsonValue,
    projection: JsonProjection,
    array_sample_size: usize,
) -> (r: usize)
    ensures
        r == projected_count(value@, projection, array_sample_size),
{
    match projection {
        JsonProjection::Value => count_nodes(value),
        JsonProjection::Schema => count_nodes(value),
        JsonProjection::Collapsed => collapsed_item_count(value, array_sample_size),
        JsonProjection::Keys => {
            let entries = key_entries(value, None, JsonKeyOrder::Pointer);
            proof {
                item_views_are(entries@);
            }
            entries.len()
        },
    }
}

/// A projection of a value, and what is left to take after it. A value is taken
/// whole or not at all.
pub open spec fn projected(value: JsonView, projection: JsonProjection, state: ProjectionState) -> (
    Result<JsonView, Fault>,
    ProjectionState,
) {
    match projection {
        JsonProjection::Value => {
            let items = node_count(value);
            if items > state.remaining {
                (
                    Err(
                        Fault::RequestLimitExceeded {
                            field: "selected JSON items"@,
                            requested: items,
                            limit: state.remaining,
                        },
                    ),
                    state,
                )
            } else {
                (
                    Ok(value),
                    ProjectionState { remaining: (state.remaining - items) as usize, ..state },
                )
            }
        },
        JsonProjection::Collapsed => {
            let shown = collapsed(value, state);
            (Ok(shown.0), shown.1)
        },
        JsonProjection::Keys => {
            let shown = keys_projected(value, state);
            (Ok(shown.0), shown.1)
        },
        JsonProjection::Schema => (
            Err(
                Fault::InvalidInput {
                    field: "projection"@,
                    reason: "schema projection requires bounded schema execution"@,
                },
            ),
            state,
        ),
    }
}

/// A result, as what it says.
pub open spec fn projected_result(r: Result<JsonValue, Error>) -> Result<JsonView, Fault> {
    match r {
        Ok(value) => Ok(value@),
        Err(e) => Err(e@),
    }
}

/// Projects a value, as far as there is anything left to take.
pub fn project_json(value: &JsonValue, projection: JsonProjection, state: &mut ProjectionState) -> (r:
    Result<JsonValue, Error>)
    ensures
        (projected_result(r), *final(state)) == projected(value@, projection, *old(state)),
{
    match projection {
        JsonProjection::Value => {
            let items: usize = count_nodes(value);
            if items > state.remaining {
                return Err(
                    Error::RequestLimitExceeded {
                        field: "selected JSON items",
                        requested: items,
                        limit: state.remaining,
                    },
                );
            }
            state.remaining = state.remaining - items;
            Ok(value.duplicate())
        },
        JsonProjection::Collapsed => Ok(collapse_json(value, state)),
        JsonProjection::Keys => Ok(project_keys(value, state)),
        JsonProjection::Schema => Err(
            Error::InvalidInput {
                field: "projection",
                reason: "schema projection requires bounded schema execution",
            },
        ),
    }
}

} // verus!
