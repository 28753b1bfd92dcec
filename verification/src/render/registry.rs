//! Formatter-side token resolution.

use vstd::prelude::*;

use crate::domain::form::Form;
use crate::domain::item::ItemToken;
use crate::domain::metric::Metric;
use crate::render::traces::TraceMetric;

verus! {

/// A parsed item token and the CSS form token it renders with.
#[derive(Debug, Clone, Copy, PartialEq, Eq)]
pub struct ResolvedItem {
    /// The parsed token.
    pub token: ItemToken,
    /// The form's CSS token (`None` for an intrinsic metric).
    pub form_token: Option<&'static str>,
}

/// The CSS token of a form: `bar` renders as `column` in a horizontal panel.
pub open spec fn form_css(form: Option<Form>, vertical: bool) -> Option<Seq<char>> {
    match form {
        None => None,
        Some(Form::Bar) => Some(
            if vertical {
                "bar"@
            } else {
                "column"@
            },
        ),
        Some(f) => Some(f.token()),
    }
}

/// Returns the CSS token of a form (see [`form_css`]).
pub fn form_token(form: Option<Form>, vertical: bool) -> (r: Option<&'static str>)
    ensures
        match form_css(form, vertical) {
            Some(t) => r matches Some(s) && s@ == t,
            None => r is None,
        },
{
    match form {
        None => None,
        Some(Form::Bar) => Some(
            if vertical {
                "bar"
            } else {
                "column"
            },
        ),
        Some(other) => Some(other.as_str()),
    }
}

/// Parses an item token and resolves its CSS form token; `None` when the
/// token names no known item.
pub fn resolve_item(token: &str, vertical: bool) -> (r: Option<ResolvedItem>)
    ensures
        match r {
            Some(item) => item.token.describes(token@) && match form_css(item.token.form_of(), vertical) {
                Some(t) => item.form_token matches Some(s) && s@ == t,
                None => item.form_token is None,
            },
            None => forall|t: ItemToken| !t.describes(token@),
        },
{
    match ItemToken::parse(token) {
        Ok(t) => Some(ResolvedItem { form_token: form_token(t.form(), vertical), token: t }),
        Err(_) => None,
    }
}

/// The trace family of a metric: CPU and memory usage have one.
pub fn trace_metric(metric: Metric) -> (r: Option<TraceMetric>)
    ensures
        r == match metric {
            Metric::CpuUsage => Some(TraceMetric::Cpu),
            Metric::MemUsage => Some(TraceMetric::Memory),
            _ => None,
        },
{
    match metric {
        Metric::CpuUsage => Some(TraceMetric::Cpu),
        Metric::MemUsage => Some(TraceMetric::Memory),
        _ => None,
    }
}

} // verus!
