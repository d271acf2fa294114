//! Identity of a model: an object and one of its models.

use vstd::prelude::*;

verus! {

/// Mathematical value of a [`Model`].
pub ghost struct ModelView {
    pub object: Option<Seq<char>>,
    pub name: Option<Seq<char>>,
}

/// The characters of an optional string.
pub open spec fn text(s: Option<String>) -> Option<Seq<char>> {
    match s {
        Some(t) => Some(t@),
        None => None,
    }
}

/// The characters of an optional string slice.
pub open spec fn slice_text(s: Option<&str>) -> Option<Seq<char>> {
    match s {
        Some(t) => Some(t@),
        None => None,
    }
}

/// Owned copy of an optional string slice.
pub fn owned(s: Option<&str>) -> (r: Option<String>)
    ensures
        text(r) == slice_text(s),
{
    match s {
        Some(t) => Some(t.to_owned()),
        None => None,
    }
}

/// Copy of an optional string.
pub fn copied(s: &Option<String>) -> (r: Option<String>)
    ensures
        text(r) == text(*s),
{
    match s {
        Some(t) => Some(t.clone()),
        None => None,
    }
}

/// Whether two optional strings hold the same characters.
pub fn same_text(a: &Option<String>, b: &Option<String>) -> (r: bool)
    ensures
        r == (text(*a) == text(*b)),
{
    match (a, b) {
        (Some(x), Some(y)) => *x == *y,
        (None, None) => true,
        _ => false,
    }
}

/// Model identity. `object` absent means every object; `name` absent means
/// every model of the object.
#[derive(Debug, Hash)]
pub struct Model {
    pub object: Option<String>,
    pub name: Option<String>,
}

impl View for Model {
    type V = ModelView;

    open spec fn view(&self) -> ModelView {
        ModelView { object: text(self.object), name: text(self.name) }
    }
}

impl ModelView {
    /// Both coordinates are set: the key names one tileset.
    pub open spec fn is_leaf(self) -> bool {
        self.object is Some && self.name is Some
    }

    /// A name without an object: no rollup has this shape.
    pub open spec fn is_illegal(self) -> bool {
        self.object is None && self.name is Some
    }
}

impl Model {
    /// The identity with copies of the two parts.
    pub fn new(object: Option<&str>, name: Option<&str>) -> (m: Self)
        ensures
            m@ == (ModelView { object: slice_text(object), name: slice_text(name) }),
    {
        Model { object: owned(object), name: owned(name) }
    }
}

impl Clone for Model {
    fn clone(&self) -> (m: Self)
        ensures
            m@ == self@,
    {
        Model { object: copied(&self.object), name: copied(&self.name) }
    }
}

impl PartialEq for Model {
    fn eq(&self, other: &Self) -> (r: bool) {
        same_text(&self.object, &other.object) && same_text(&self.name, &other.name)
    }
}

impl vstd::std_specs::cmp::PartialEqSpecImpl for Model {
    open spec fn obeys_eq_spec() -> bool {
        true
    }

    open spec fn eq_spec(&self, other: &Self) -> bool {
        self@ == other@
    }
}

impl Eq for Model {}

impl Default for Model {
    fn default() -> (m: Self)
        ensures
            m@ == (ModelView { object: None, name: None }),
    {
        Model { object: None, name: None }
    }
}

} // verus!
