//! Form, shape, and surface contracts.

use vstd::prelude::*;

use crate::text::{owned, str_eq};
use vstd::string::StrSliceExecFns;

verus! {

/// Intrinsic row shapes owned by specific metrics.
#[derive(Debug, Clone, Copy, PartialEq, Eq, Hash, Ord, PartialOrd, Structural)]
pub enum Shape {
    /// Label + left-aligned auxiliary column + value.
    TripleL,
    /// Two adjacent key/value pairs on one row.
    Duo,
}

/// A concrete render surface.
#[derive(Debug, Clone, Copy, PartialEq, Eq, Hash, Ord, PartialOrd, Structural)]
pub enum Surface {
    /// Tooltip HTML.
    Tooltip,
    /// Horizontal panel HTML.
    PanelHorizontal,
    /// Vertical panel HTML.
    PanelVertical,
}

/// A small bitset describing one or more admitted surfaces.
#[derive(Debug, Clone, Copy, PartialEq, Eq, Hash, Default, Structural)]
pub struct SurfaceSet(u8);

/// Generic user-selectable rendering forms.
#[derive(Debug, Clone, Copy, PartialEq, Eq, Hash, Ord, PartialOrd, Default, Structural)]
pub enum Form {
    /// Plain value rendering.
    #[default]
    Value,
    /// Orientation-adaptive bar/column rendering.
    Bar,
    /// Block sparkline rendering.
    Spark,
    /// Braille sparkline rendering.
    Braille,
    /// Sparkline plus numeric value.
    SparkValue,
    /// Braille sparkline plus numeric value.
    BrailleValue,
    /// Current bar plus history sparkline.
    BarSpark,
    /// Current bar plus history braille sparkline.
    BarBraille,
    /// Multi-instance pair rendering.
    Pair,
}

impl Shape {
    /// The stable snake_case token of a shape.
    pub open spec fn token(self) -> Seq<char> {
        match self {
            Shape::TripleL => "triple_l"@,
            Shape::Duo => "duo"@,
        }
    }

    /// Returns the stable snake_case token of this value.
    pub fn as_str(self) -> (s: &'static str)
        ensures
            s@ == self.token(),
    {
        match self {
            Shape::TripleL => "triple_l",
            Shape::Duo => "duo",
        }
    }
}

impl Surface {
    /// The stable snake_case token of a surface.
    pub open spec fn token(self) -> Seq<char> {
        match self {
            Surface::Tooltip => "tooltip"@,
            Surface::PanelHorizontal => "panel_horizontal"@,
            Surface::PanelVertical => "panel_vertical"@,
        }
    }

    /// Returns the stable snake_case token of this value.
    pub fn as_str(self) -> (s: &'static str)
        ensures
            s@ == self.token(),
    {
        match self {
            Surface::Tooltip => "tooltip",
            Surface::PanelHorizontal => "panel_horizontal",
            Surface::PanelVertical => "panel_vertical",
        }
    }

    /// The bit that stands for a surface inside a [`SurfaceSet`].
    pub open spec fn bit(self) -> u8 {
        match self {
            Surface::Tooltip => 1,
            Surface::PanelHorizontal => 2,
            Surface::PanelVertical => 4,
        }
    }
}

impl SurfaceSet {
    #[verifier::type_invariant]
    spec fn wf(self) -> bool {
        self.0 < 8
    }

    /// The raw bits of the set.
    pub closed spec fn bits(self) -> u8 {
        self.0
    }

    /// Whether the set admits `s`.
    pub open spec fn has(self, s: Surface) -> bool {
        self.bits() & s.bit() != 0
    }

    /// Two sets that admit the same surfaces are the same set.
    pub proof fn lemma_ext(a: Self, b: Self)
        requires
            a.bits() < 8,
            b.bits() < 8,
            forall|s: Surface| a.has(s) == b.has(s),
        ensures
            a == b,
    {
        let x = a.0;
        let y = b.0;
        assert(a.has(Surface::Tooltip) == b.has(Surface::Tooltip));
        assert(a.has(Surface::PanelHorizontal) == b.has(Surface::PanelHorizontal));
        assert(a.has(Surface::PanelVertical) == b.has(Surface::PanelVertical));
        assert(x == y) by (bit_vector)
            requires
                x < 8,
                y < 8,
                (x & 1 != 0) == (y & 1 != 0),
                (x & 2 != 0) == (y & 2 != 0),
                (x & 4 != 0) == (y & 4 != 0),
        ;
    }

    /// Whether the set admits no surface at all.
    pub open spec fn empty_set(self) -> bool {
        forall|s: Surface| !self.has(s)
    }

    /// Builds a set from its tooltip / horizontal-panel / vertical-panel flags.
    pub fn from_flags(tooltip: bool, horizontal: bool, vertical: bool) -> (r: Self)
        ensures
            r.has(Surface::Tooltip) == tooltip,
            r.has(Surface::PanelHorizontal) == horizontal,
            r.has(Surface::PanelVertical) == vertical,
            r.bits() < 8,
    {
        let t: u8 = if tooltip { 1 } else { 0 };
        let h: u8 = if horizontal { 2 } else { 0 };
        let v: u8 = if vertical { 4 } else { 0 };
        let bits: u8 = t | h | v;
        assert(bits < 8 && (bits & 1 != 0) == tooltip && (bits & 2 != 0) == horizontal && (bits
            & 4 != 0) == vertical) by (bit_vector)
            requires
                t == (if tooltip { 1u8 } else { 0u8 }),
                h == (if horizontal { 2u8 } else { 0u8 }),
                v == (if vertical { 4u8 } else { 0u8 }),
                bits == t | h | v,
        ;
        SurfaceSet(bits)
    }

    /// Empty surface set.
    pub fn none() -> (r: Self)
        ensures
            r.bits() < 8,
            r.empty_set(),
    {
        Self::from_flags(false, false, false)
    }

    /// Tooltip-only surface set.
    pub fn tooltip() -> (r: Self)
        ensures
            r.bits() < 8,
            r.has(Surface::Tooltip),
            !r.has(Surface::PanelHorizontal),
            !r.has(Surface::PanelVertical),
    {
        Self::from_flags(true, false, false)
    }

    /// Both panel orientations.
    pub fn panel() -> (r: Self)
        ensures
            r.bits() < 8,
            !r.has(Surface::Tooltip),
            r.has(Surface::PanelHorizontal),
            r.has(Surface::PanelVertical),
    {
        Self::from_flags(false, true, true)
    }

    /// All supported surfaces.
    pub fn all() -> (r: Self)
        ensures
            r.bits() < 8,
            r.has(Surface::Tooltip),
            r.has(Surface::PanelHorizontal),
            r.has(Surface::PanelVertical),
    {
        Self::from_flags(true, true, true)
    }

    /// Creates a singleton surface set.
    pub fn from_surface(surface: Surface) -> (r: Self)
        ensures
            r.bits() < 8,
            forall|s: Surface| r.has(s) == (s == surface),
    {
        match surface {
            Surface::Tooltip => Self::from_flags(true, false, false),
            Surface::PanelHorizontal => Self::from_flags(false, true, false),
            Surface::PanelVertical => Self::from_flags(false, false, true),
        }
    }

    /// Returns `true` when the set includes the given surface.
    pub fn contains(self, surface: Surface) -> (r: bool)
        ensures
            r == self.has(surface),
    {
        let b: u8 = match surface {
            Surface::Tooltip => 1,
            Surface::PanelHorizontal => 2,
            Surface::PanelVertical => 4,
        };
        (self.0 & b) != 0
    }

    /// Returns the intersection of two surface sets.
    pub fn intersection(self, other: Self) -> (r: Self)
        ensures
            forall|s: Surface| r.has(s) == (self.has(s) && other.has(s)),
            r.bits() < 8,
    {
        proof {
            use_type_invariant(&self);
            use_type_invariant(&other);
        }
        let a = self.0;
        let b = other.0;
        let c: u8 = a & b;
        assert(c < 8 && ((c & 1 != 0) == ((a & 1 != 0) && (b & 1 != 0))) && ((c & 2 != 0) == ((a
            & 2 != 0) && (b & 2 != 0))) && ((c & 4 != 0) == ((a & 4 != 0) && (b & 4 != 0))))
            by (bit_vector)
            requires
                a < 8,
                c == a & b,
        ;
        SurfaceSet(c)
    }

    /// Returns `true` when the set is empty.
    pub fn is_empty(self) -> (r: bool)
        ensures
            r == self.empty_set(),
    {
        proof {
            use_type_invariant(&self);
            let a = self.0;
            assert(a < 8 ==> ((a == 0) == ((a & 1 == 0) && (a & 2 == 0) && (a & 4 == 0))))
                by (bit_vector);
            if a != 0 {
                if a & 1 != 0 {
                    assert(self.has(Surface::Tooltip));
                } else if a & 2 != 0 {
                    assert(self.has(Surface::PanelHorizontal));
                } else {
                    assert(self.has(Surface::PanelVertical));
                }
            }
        }
        self.0 == 0
    }
}

impl Form {
    /// The stable snake_case config token of a form.
    pub open spec fn token(self) -> Seq<char> {
        match self {
            Form::Value => "value"@,
            Form::Bar => "bar"@,
            Form::Spark => "spark"@,
            Form::Braille => "braille"@,
            Form::SparkValue => "spark_value"@,
            Form::BrailleValue => "braille_value"@,
            Form::BarSpark => "bar_spark"@,
            Form::BarBraille => "bar_braille"@,
            Form::Pair => "pair"@,
        }
    }

    /// Whether the generic form may render on `s`: plain values anywhere,
    /// bar/spark/braille on the panel, the combined forms in the tooltip.
    pub open spec fn admits(self, s: Surface) -> bool {
        match self {
            Form::Value => true,
            Form::Bar | Form::Spark | Form::Braille => s != Surface::Tooltip,
            _ => s == Surface::Tooltip,
        }
    }

    /// Returns the stable snake_case config token.
    pub fn as_str(self) -> (s: &'static str)
        ensures
            s@ == self.token(),
    {
        match self {
            Form::Value => "value",
            Form::Bar => "bar",
            Form::Spark => "spark",
            Form::Braille => "braille",
            Form::SparkValue => "spark_value",
            Form::BrailleValue => "braille_value",
            Form::BarSpark => "bar_spark",
            Form::BarBraille => "bar_braille",
            Form::Pair => "pair",
        }
    }

    /// Returns the surfaces admitted by the generic form.
    pub fn allowed_surfaces(self) -> (r: SurfaceSet)
        ensures
            forall|s: Surface| r.has(s) == self.admits(s),
    {
        match self {
            Form::Value => SurfaceSet::all(),
            Form::Bar | Form::Spark | Form::Braille => SurfaceSet::panel(),
            _ => SurfaceSet::tooltip(),
        }
    }

    /// Every form, in declaration order.
    pub open spec fn all_forms() -> Seq<Form> {
        seq![
            Form::Value,
            Form::Bar,
            Form::Spark,
            Form::Braille,
            Form::SparkValue,
            Form::BrailleValue,
            Form::BarSpark,
            Form::BarBraille,
            Form::Pair,
        ]
    }

    /// Every form, in declaration order.
    pub fn all() -> (v: Vec<Form>)
        ensures
            v@ == Form::all_forms(),
    {
        let v = vec![
            Form::Value,
            Form::Bar,
            Form::Spark,
            Form::Braille,
            Form::SparkValue,
            Form::BrailleValue,
            Form::BarSpark,
            Form::BarBraille,
            Form::Pair,
        ];
        assert(v@ =~= Form::all_forms());
        v
    }

    /// Parses a config token; the empty token means [`Form::Value`].
    pub fn parse(value: &str) -> (r: Result<Form, FormParseError>)
        ensures
            match r {
                Ok(f) => form_named(value@) == Some(f),
                Err(e) => e.value@ == value@ && form_named(value@) is None,
            },
    {
        if value.unicode_len() == 0 {
            return Ok(Form::Value);
        }
        let all = Form::all();
        let mut i: usize = 0;
        while i < all.len()
            invariant
                all@ == Form::all_forms(),
                i <= all@.len(),
                value@.len() != 0,
                forall|j: int| 0 <= j < i ==> value@ != #[trigger] all@[j].token(),
            decreases all@.len() - i,
        {
            if str_eq(value, all[i].as_str()) {
                proof {
                    let j = choose|j: int|
                        0 <= j < Form::all_forms().len() && Form::all_forms()[j].token() == value@
                            && forall|k: int| 0 <= k < j ==> Form::all_forms()[k].token() != value@;
                    assert(all@[i as int].token() == value@);
                    if j < i {
                        assert(value@ != all@[j].token());
                    } else if j > i {
                    }
                }
                return Ok(all[i]);
            }
            i = i + 1;
        }
        Err(FormParseError { value: owned(value) })
    }
}

/// The form a config token names: the empty token names `value`; otherwise
/// the first form (in declaration order) whose token it is.
pub open spec fn form_named(s: Seq<char>) -> Option<Form> {
    if s.len() == 0 {
        Some(Form::Value)
    } else if exists|j: int| 0 <= j < Form::all_forms().len() && Form::all_forms()[j].token() == s {
        Some(
            Form::all_forms()[choose|j: int|
                0 <= j < Form::all_forms().len() && Form::all_forms()[j].token() == s && forall|k: int|
                    0 <= k < j ==> Form::all_forms()[k].token() != s],
        )
    } else {
        None
    }
}

/// A form's own token names it: printing a form and reading the token back
/// gives the same form.
pub proof fn lemma_form_token_round_trip(f: Form)
    ensures
        form_named(f.token()) == Some(f),
{
    reveal_strlit("value");
    reveal_strlit("bar");
    reveal_strlit("spark");
    reveal_strlit("braille");
    reveal_strlit("spark_value");
    reveal_strlit("braille_value");
    reveal_strlit("bar_spark");
    reveal_strlit("bar_braille");
    reveal_strlit("pair");
    let all = Form::all_forms();
    let i: int = match f {
        Form::Value => 0,
        Form::Bar => 1,
        Form::Spark => 2,
        Form::Braille => 3,
        Form::SparkValue => 4,
        Form::BrailleValue => 5,
        Form::BarSpark => 6,
        Form::BarBraille => 7,
        Form::Pair => 8,
    };
    assert(all[i] == f);
    assert forall|k: int| 0 <= k < all.len() && k != i implies all[k].token() != f.token() by {
        assert(all[k].token().len() != f.token().len() || all[k].token()[0] != f.token()[0]
            || all[k].token()[all[k].token().len() - 1] != f.token()[f.token().len() - 1]
            || all[k].token()[3] != f.token()[3] || all[k].token()[5] != f.token()[5]);
    }
}

/// An invalid generic form token.
#[derive(Debug, Clone, PartialEq, Eq)]
pub struct FormParseError {
    /// The rejected form token.
    pub value: String,
}

impl std::str::FromStr for Form {
    type Err = FormParseError;

    fn from_str(value: &str) -> (r: Result<Self, Self::Err>)
        ensures
            match r {
                Ok(f) => form_named(value@) == Some(f),
                Err(e) => e.value@ == value@ && form_named(value@) is None,
            },
    {
        Form::parse(value)
    }
}

} // verus!
