//! Config item tokens: `metric` or `metric:form`.

use vstd::prelude::*;

use crate::domain::form::{form_named, Form, Shape, Surface, SurfaceSet};
use crate::domain::metric::{metric_named, Metric};
use crate::text::{owned, string_from_chars, to_chars};

verus! {

/// How an item renders: through a generic form, or through the metric's own
/// intrinsic shape.
#[derive(Debug, Clone, Copy, PartialEq, Eq)]
pub enum ItemRendering {
    /// A generic user-selectable form.
    Generic(Form),
    /// A metric-owned intrinsic row shape.
    Intrinsic(Shape),
}

/// A parsed, validated item token.
#[derive(Debug, Clone, Copy, PartialEq, Eq)]
pub struct ItemToken {
    metric: Metric,
    form: Option<Form>,
}

/// A token that names no known metric/form combination.
#[derive(Debug, Clone, PartialEq, Eq)]
pub struct ItemParseError {
    /// The rejected token.
    pub token: String,
}

/// Index of the first `:` in `s`, if any.
pub open spec fn first_colon(s: Seq<char>) -> Option<int> {
    if exists|k: int| 0 <= k < s.len() && s[k] == ':' {
        Some(choose|k: int| 0 <= k < s.len() && s[k] == ':' && forall|j: int| 0 <= j < k ==> s[j] != ':')
    } else {
        None
    }
}

impl ItemToken {
    /// The metric of the token.
    pub closed spec fn metric_of(self) -> Metric {
        self.metric
    }

    /// The form of the token: the explicit or default form of a generic
    /// metric, `None` for an intrinsic metric.
    pub closed spec fn form_of(self) -> Option<Form> {
        self.form
    }

    /// Whether the token is the parse of `s`: a bare metric token takes the
    /// metric's default form (`value`, or none for an intrinsic metric); a
    /// `metric:form` token names a form the metric accepts.
    pub open spec fn describes(self, s: Seq<char>) -> bool {
        match first_colon(s) {
            None => {
                &&& metric_named(s) == Some(self.metric_of())
                &&& self.form_of() == (if self.metric_of().forms().len() > 0 {
                    Some(Form::Value)
                } else {
                    None::<Form>
                })
            },
            Some(k) => {
                &&& metric_named(s.subrange(0, k)) == Some(self.metric_of())
                &&& self.form_of() matches Some(f)
                &&& form_named(s.subrange(k + 1, s.len() as int)) == Some(f)
                &&& self.metric_of().forms().contains(f)
            },
        }
    }

    /// Surfaces on which the item may render: the metric's surfaces,
    /// intersected with those of its generic form when it has one.
    pub open spec fn admits(self, s: Surface) -> bool {
        self.metric_of().admits(s) && match self.form_of() {
            Some(f) => f.admits(s),
            None => true,
        }
    }

    /// Parses and validates an item token.
    pub fn parse(token: &str) -> (r: Result<ItemToken, ItemParseError>)
        ensures
            match r {
                Ok(t) => t.describes(token@),
                Err(e) => e.token@ == token@ && forall|t: ItemToken| !t.describes(token@),
            },
    {
        let cs = to_chars(token);
        let mut k: usize = 0;
        while k < cs.len() && cs[k] != ':'
            invariant
                k <= cs@.len(),
                cs@ == token@,
                forall|j: int| 0 <= j < k ==> cs@[j] != ':',
            decreases cs@.len() - k,
        {
            k = k + 1;
        }
        if k == cs.len() {
            proof {
                assert(first_colon(token@) is None);
            }
            match Metric::parse(token) {
                Ok(m) => {
                    let form = if m.spec().generic_forms.len() > 0 {
                        Some(Form::Value)
                    } else {
                        None
                    };
                    Ok(ItemToken { metric: m, form })
                },
                Err(_) => Err(ItemParseError { token: owned(token) }),
            }
        } else {
            let ghost s = token@;
            proof {
                assert(first_colon(s) == Some(k as int)) by {
                    assert(0 <= k < s.len() && s[k as int] == ':');
                    let c = choose|c: int| 0 <= c < s.len() && s[c] == ':' && forall|j: int| 0 <= j < c ==> s[j] != ':';
                    if c < k {
                    } else if c > k {
                        assert(s[k as int] != ':');
                    }
                }
            }
            let metric_part = string_from_chars(&cs.as_slice()[0..k]);
            let form_part = string_from_chars(&cs.as_slice()[k + 1..cs.len()]);
            assert(metric_part@ =~= s.subrange(0, k as int));
            assert(form_part@ =~= s.subrange(k + 1, s.len() as int));
            let metric = match Metric::parse(metric_part.as_str()) {
                Ok(m) => m,
                Err(_) => {
                    return Err(ItemParseError { token: owned(token) });
                },
            };
            let form = match Form::parse(form_part.as_str()) {
                Ok(f) => f,
                Err(_) => {
                    return Err(ItemParseError { token: owned(token) });
                },
            };
            if metric.supports_form(form) {
                Ok(ItemToken { metric, form: Some(form) })
            } else {
                Err(ItemParseError { token: owned(token) })
            }
        }
    }

    /// Returns the token's metric.
    pub fn metric(&self) -> (m: Metric)
        ensures
            m == self.metric_of(),
    {
        self.metric
    }

    /// Returns the token's form (`None` for intrinsic metrics).
    pub fn form(&self) -> (f: Option<Form>)
        ensures
            f == self.form_of(),
    {
        self.form
    }

    /// Returns how the item renders.
    pub fn rendering(&self) -> (r: ItemRendering)
        ensures
            self.form_of() matches Some(f) ==> r == ItemRendering::Generic(f),
            self.form_of() is None ==> r == ItemRendering::Intrinsic(
                match self.metric_of().shape() {
                    Some(s) => s,
                    None => Shape::TripleL,
                },
            ),
    {
        match self.form {
            Some(f) => ItemRendering::Generic(f),
            None => match self.metric.intrinsic_shape() {
                Some(s) => ItemRendering::Intrinsic(s),
                None => ItemRendering::Intrinsic(Shape::TripleL),
            },
        }
    }

    /// Returns the surfaces on which the item may render.
    pub fn placement(&self) -> (r: SurfaceSet)
        ensures
            forall|s: Surface| r.has(s) == self.admits(s),
    {
        let surfaces = self.metric.surfaces();
        match self.form {
            Some(f) => surfaces.intersection(f.allowed_surfaces()),
            None => surfaces,
        }
    }
}

/// At most one token describes a given text.
pub proof fn lemma_describes_unique(a: ItemToken, b: ItemToken, s: Seq<char>)
    requires
        a.describes(s),
        b.describes(s),
    ensures
        a == b,
{
}

} // verus!
