//! Identifiers of tensors and of their axes.

use vstd::prelude::*;

verus! {

/// The identifier of a tensor; unique among all inputs and outputs of a model.
#[derive(Debug, Hash)]
pub struct TensorId {
    id: String,
}

/// The identifier of an axis; unique among the axes of one tensor.
#[derive(Debug, Hash)]
pub struct AxisId {
    id: String,
}

impl View for TensorId {
    type V = Seq<char>;

    closed spec fn view(&self) -> Seq<char> {
        self.id@
    }
}

impl View for AxisId {
    type V = Seq<char>;

    closed spec fn view(&self) -> Seq<char> {
        self.id@
    }
}

impl TensorId {
    #[verifier::type_invariant]
    spec fn non_empty(self) -> bool {
        self.id@.len() > 0
    }

    /// A tensor id made of `id`; an empty string is not an id.
    pub fn new(id: &str) -> (r: Option<TensorId>)
        ensures
            r is Some <==> id@.len() > 0,
            r matches Some(t) ==> t@ == id@,
    {
        if id.is_empty() {
            None
        } else {
            Some(TensorId { id: id.to_owned() })
        }
    }

    pub fn as_str(&self) -> (r: &str)
        ensures
            r@ == self@,
            r@.len() > 0,
    {
        proof {
            use_type_invariant(self);
        }
        self.id.as_str()
    }
}

impl AxisId {
    #[verifier::type_invariant]
    spec fn non_empty(self) -> bool {
        self.id@.len() > 0
    }

    /// An axis id made of `id`; an empty string is not an id.
    pub fn new(id: &str) -> (r: Option<AxisId>)
        ensures
            r is Some <==> id@.len() > 0,
            r matches Some(a) ==> a@ == id@,
    {
        if id.is_empty() {
            None
        } else {
            Some(AxisId { id: id.to_owned() })
        }
    }

    pub fn as_str(&self) -> (r: &str)
        ensures
            r@ == self@,
            r@.len() > 0,
    {
        proof {
            use_type_invariant(self);
        }
        self.id.as_str()
    }
}

impl Clone for TensorId {
    fn clone(&self) -> (r: Self)
        ensures
            r == *self,
    {
        proof {
            use_type_invariant(self);
        }
        TensorId { id: self.id.clone() }
    }
}

impl Clone for AxisId {
    fn clone(&self) -> (r: Self)
        ensures
            r == *self,
    {
        proof {
            use_type_invariant(self);
        }
        AxisId { id: self.id.clone() }
    }
}

impl PartialEq for TensorId {
    fn eq(&self, other: &TensorId) -> (r: bool) {
        self.id == other.id
    }
}

impl vstd::std_specs::cmp::PartialEqSpecImpl for TensorId {
    open spec fn obeys_eq_spec() -> bool {
        true
    }

    open spec fn eq_spec(&self, other: &TensorId) -> bool {
        self@ == other@
    }
}

impl Eq for TensorId {
}

impl PartialEq for AxisId {
    fn eq(&self, other: &AxisId) -> (r: bool) {
        self.id == other.id
    }
}

impl vstd::std_specs::cmp::PartialEqSpecImpl for AxisId {
    open spec fn obeys_eq_spec() -> bool {
        true
    }

    open spec fn eq_spec(&self, other: &AxisId) -> bool {
        self@ == other@
    }
}

impl Eq for AxisId {
}

} // verus!
