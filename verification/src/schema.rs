//! The component model: a read-only schema loaded once at sandbox start. For
//! each declared widget kind it lists the permitted property names with their
//! declared types and, for container kinds, the permitted child kinds. The
//! render validator and `set_properties` consult it; nothing mutates it.

use vstd::prelude::*;

use crate::model::PropertyValue;
use crate::model::Property;

verus! {

/// Declared type of a property in the component model.
#[derive(Clone, Copy, Debug, PartialEq, Eq, Structural)]
pub enum PropertyType {
    Text,
    Number,
    Bool,
    Function,
    /// A reference shared with the host; never carried as a runtime value.
    Shared,
}

/// One permitted property of a component kind.
#[derive(Clone, Debug)]
pub struct PropertyDecl {
    pub name: String,
    pub prop_type: PropertyType,
}

/// What a component kind accepts as children.
#[derive(Clone, Debug)]
pub struct ChildrenRule {
    /// Widget kinds permitted as element children; empty for leaf kinds.
    pub kinds: Vec<String>,
    /// Whether plain text instances are permitted as children.
    pub allow_text: bool,
}

/// The declaration of one component kind.
#[derive(Clone, Debug)]
pub struct ComponentDecl {
    pub name: String,
    pub props: Vec<PropertyDecl>,
    pub children: ChildrenRule,
}

/// The immutable schema snapshot: all declared component kinds.
#[derive(Clone, Debug)]
pub struct ComponentModel {
    pub components: Vec<ComponentDecl>,
}

/// A runtime value's tag matches a declared type. Shared-reference
/// declarations never match a runtime value: such data crosses the boundary
/// as children, not as property values.
pub open spec fn value_matches(v: PropertyValue, t: PropertyType) -> bool {
    match v {
        PropertyValue::Function => t is Function,
        PropertyValue::Text(_) => t is Text,
        PropertyValue::Number(_) => t is Number,
        PropertyValue::Bool(_) => t is Bool,
    }
}

impl ComponentDecl {
    /// Property names are declared at most once per kind.
    pub open spec fn wf(self) -> bool {
        forall|j1: int, j2: int|
            0 <= j1 < j2 < self.props@.len() ==> self.props@[j1].name@ != self.props@[j2].name@
    }

    /// The name is declared as a property of this kind.
    pub open spec fn declares(self, name: Seq<char>) -> bool {
        exists|j: int| 0 <= j < self.props@.len() && (#[trigger] self.props@[j]).name@ == name
    }

    /// The declared type of a property name (meaningful when `declares`).
    pub open spec fn declared_type(self, name: Seq<char>) -> PropertyType {
        let j = choose|j: int| 0 <= j < self.props@.len() && (#[trigger] self.props@[j]).name@ == name;
        self.props@[j].prop_type
    }

    /// A runtime property is permitted: declared, with a matching value tag.
    pub open spec fn allows_prop(self, p: Property) -> bool {
        self.declares(p.name@) && value_matches(p.value, self.declared_type(p.name@))
    }

    /// Every property of the batch is permitted.
    pub open spec fn allows_batch(self, props: Seq<Property>) -> bool {
        forall|i: int| 0 <= i < props.len() ==> self.allows_prop(#[trigger] props[i])
    }

    /// An element child of the given kind is permitted.
    pub open spec fn allows_child_kind(self, kind: Seq<char>) -> bool {
        exists|j: int|
            0 <= j < self.children.kinds@.len() && (#[trigger] self.children.kinds@[j])@ == kind
    }

    /// Looks up the declaration of a property name.
    pub fn find_prop(&self, name: &String) -> (r: Option<usize>)
        requires
            self.wf(),
        ensures
            match r {
                Some(j) => j < self.props@.len() && self.props@[j as int].name@ == name@
                    && self.props@[j as int].prop_type == self.declared_type(name@)
                    && self.declares(name@),
                None => !self.declares(name@),
            },
    {
        let mut j: usize = 0;
        while j < self.props.len()
            invariant
                j <= self.props@.len(),
                self.wf(),
                forall|i: int| 0 <= i < j ==> (#[trigger] self.props@[i]).name@ != name@,
            decreases self.props@.len() - j,
        {
            if self.props[j].name == *name {
                return Some(j);
            }
            j += 1;
        }
        None
    }

    /// Checks whether a widget kind is a permitted element child.
    pub fn permits_child_kind(&self, kind: &String) -> (r: bool)
        ensures
            r == self.allows_child_kind(kind@),
    {
        let mut j: usize = 0;
        while j < self.children.kinds.len()
            invariant
                j <= self.children.kinds@.len(),
                forall|i: int| 0 <= i < j ==> (#[trigger] self.children.kinds@[i])@ != kind@,
            decreases self.children.kinds@.len() - j,
        {
            if self.children.kinds[j] == *kind {
                return true;
            }
            j += 1;
        }
        false
    }

    /// Validates a property batch against this declaration: accepted exactly
    /// when every named property is declared with a matching value tag.
    pub fn validate_batch(&self, props: &Vec<Property>) -> (r: Result<(), crate::model::ValidationError>)
        requires
            self.wf(),
        ensures
            r is Ok <==> self.allows_batch(props@),
            r matches Err(e) ==> (e is UndeclaredProperty || e is PropertyTypeMismatch),
    {
        let mut i: usize = 0;
        while i < props.len()
            invariant
                i <= props@.len(),
                self.wf(),
                forall|k: int| 0 <= k < i ==> self.allows_prop(#[trigger] props@[k]),
            decreases props@.len() - i,
        {
            match self.find_prop(&props[i].name) {
                None => {
                    return Err(crate::model::ValidationError::UndeclaredProperty);
                },
                Some(j) => {
                    let matches_tag = match (&props[i].value, &self.props[j].prop_type) {
                        (PropertyValue::Function, PropertyType::Function) => true,
                        (PropertyValue::Text(_), PropertyType::Text) => true,
                        (PropertyValue::Number(_), PropertyType::Number) => true,
                        (PropertyValue::Bool(_), PropertyType::Bool) => true,
                        _ => false,
                    };
                    if !matches_tag {
                        return Err(crate::model::ValidationError::PropertyTypeMismatch);
                    }
                },
            }
            i += 1;
        }
        Ok(())
    }
}

impl ComponentModel {
    /// Component names are declared at most once, and each declaration is
    /// itself well formed.
    pub open spec fn wf(self) -> bool {
        &&& forall|j1: int, j2: int|
            0 <= j1 < j2 < self.components@.len()
                ==> self.components@[j1].name@ != self.components@[j2].name@
        &&& forall|j: int|
            0 <= j < self.components@.len() ==> (#[trigger] self.components@[j]).wf()
    }

    /// The kind has a declaration in this model.
    pub open spec fn has_decl(self, kind: Seq<char>) -> bool {
        exists|j: int|
            0 <= j < self.components@.len() && (#[trigger] self.components@[j]).name@ == kind
    }

    /// The declaration of a kind (meaningful when `has_decl`).
    pub open spec fn decl_of(self, kind: Seq<char>) -> ComponentDecl {
        let j = choose|j: int|
            0 <= j < self.components@.len() && (#[trigger] self.components@[j]).name@ == kind;
        self.components@[j]
    }

    /// Builds the immutable snapshot: accepted exactly when no kind is
    /// declared twice and no kind declares one property name twice.
    pub fn new(components: Vec<ComponentDecl>) -> (r: Option<ComponentModel>)
        ensures
            r is Some <==> (ComponentModel { components }).wf(),
            r matches Some(m) ==> m.wf() && m.components@ == components@,
    {
        let n = components.len();
        let mut j: usize = 0;
        while j < n
            invariant
                j <= n,
                n == components@.len(),
                forall|a: int, b: int|
                    0 <= a < b < j ==> components@[a].name@ != components@[b].name@,
                forall|a: int| 0 <= a < j ==> (#[trigger] components@[a]).wf(),
            decreases n - j,
        {
            let mut k: usize = 0;
            while k < j
                invariant
                    k <= j < n,
                    n == components@.len(),
                    forall|a: int| 0 <= a < k ==> components@[a].name@ != components@[j as int].name@,
                decreases j - k,
            {
                if components[k].name == components[j].name {
                    proof {
                        let m = ComponentModel { components };
                        assert(m.components@[k as int].name@ == m.components@[j as int].name@);
                        assert(!m.wf());
                    }
                    return None;
                }
                k += 1;
            }
            let np = components[j].props.len();
            let mut a: usize = 0;
            while a < np
                invariant
                    a <= np,
                    j < n,
                    n == components@.len(),
                    np == components@[j as int].props@.len(),
                    forall|x: int, y: int|
                        0 <= x < y < a
                            ==> components@[j as int].props@[x].name@
                                != components@[j as int].props@[y].name@,
                decreases np - a,
            {
                let mut b: usize = 0;
                while b < a
                    invariant
                        b <= a < np,
                        a < np,
                        j < n,
                        n == components@.len(),
                        np == components@[j as int].props@.len(),
                        forall|x: int|
                            0 <= x < b
                                ==> components@[j as int].props@[x].name@
                                    != components@[j as int].props@[a as int].name@,
                    decreases a - b,
                {
                    if components[j].props[b].name == components[j].props[a].name {
                        proof {
                            let m = ComponentModel { components };
                            let d = m.components@[j as int];
                            assert(d.props@[b as int].name@ == d.props@[a as int].name@);
                            assert(!d.wf());
                            assert(!m.wf());
                        }
                        return None;
                    }
                    b += 1;
                }
                a += 1;
            }
            j += 1;
        }
        Some(ComponentModel { components })
    }

    /// Looks up the declaration of a widget kind.
    pub fn lookup(&self, kind: &String) -> (r: Option<&ComponentDecl>)
        requires
            self.wf(),
        ensures
            match r {
                Some(d) => self.has_decl(kind@) && *d == self.decl_of(kind@) && d.wf()
                    && d.name@ == kind@,
                None => !self.has_decl(kind@),
            },
    {
        let mut j: usize = 0;
        while j < self.components.len()
            invariant
                j <= self.components@.len(),
                self.wf(),
                forall|i: int| 0 <= i < j ==> (#[trigger] self.components@[i]).name@ != kind@,
            decreases self.components@.len() - j,
        {
            if self.components[j].name == *kind {
                let d = &self.components[j];
                proof {
                    let w = choose|w: int|
                        0 <= w < self.components@.len()
                            && (#[trigger] self.components@[w]).name@ == kind@;
                    assert(w == j as int);
                }
                return Some(d);
            }
            j += 1;
        }
        None
    }

    /// Read accessor for the capability op that hands the schema to the
    /// sandbox; the snapshot itself, unchanged.
    pub fn components(&self) -> (r: &Vec<ComponentDecl>)
        ensures
            r@ == self.components@,
    {
        &self.components
    }
}

} // verus!
