//! The extracted schema: type and method declarations, each with the
//! fields or parameters that the page's tables and lists describe.

use vstd::prelude::*;

verus! {

/// Spec-level picture of a field of a type declaration.
pub ghost struct FieldModel {
    pub name: Seq<char>,
    pub ty: Seq<char>,
    pub optional: bool,
    pub description: Seq<char>,
}

/// Spec-level picture of a parameter of a method declaration.
pub ghost struct ParameterModel {
    pub name: Seq<char>,
    pub ty: Seq<char>,
    pub required: bool,
    pub description: Seq<char>,
}

/// Spec-level picture of a type declaration.
pub ghost struct TypeModel {
    pub name: Seq<char>,
    pub description: Seq<char>,
    pub fields: Seq<FieldModel>,
}

/// Spec-level picture of a method declaration.
pub ghost struct MethodModel {
    pub name: Seq<char>,
    pub description: Seq<char>,
    pub parameters: Seq<ParameterModel>,
}

/// One field of a type declaration.  `optional` holds when the field's
/// description opens with the literal word `Optional`.
pub struct Field {
    pub name: String,
    pub ty: String,
    pub optional: bool,
    pub description: String,
}

impl View for Field {
    type V = FieldModel;

    open spec fn view(&self) -> FieldModel {
        FieldModel {
            name: self.name@,
            ty: self.ty@,
            optional: self.optional,
            description: self.description@,
        }
    }
}

impl Field {
    /// Builds a field from its parts.
    pub fn new(name: String, ty: String, optional: bool, description: String) -> (r: Self)
        ensures
            r@ == (FieldModel { name: name@, ty: ty@, optional, description: description@ }),
    {
        Field { name, ty, optional, description }
    }
}

/// One parameter of a method declaration.  `required` holds unless the
/// page's `Required` column says otherwise.
pub struct Parameter {
    pub name: String,
    pub ty: String,
    pub required: bool,
    pub description: String,
}

impl View for Parameter {
    type V = ParameterModel;

    open spec fn view(&self) -> ParameterModel {
        ParameterModel {
            name: self.name@,
            ty: self.ty@,
            required: self.required,
            description: self.description@,
        }
    }
}

impl Parameter {
    /// Builds a parameter from its parts.
    pub fn new(name: String, ty: String, required: bool, description: String) -> (r: Self)
        ensures
            r@ == (ParameterModel {
                name: name@,
                ty: ty@,
                required,
                description: description@,
            }),
    {
        Parameter { name, ty, required, description }
    }
}

/// The fields of a sequence of field values, as models.
pub open spec fn fields_view(v: Seq<Field>) -> Seq<FieldModel> {
    v.map_values(|f: Field| f@)
}

/// The parameters of a sequence of parameter values, as models.
pub open spec fn parameters_view(v: Seq<Parameter>) -> Seq<ParameterModel> {
    v.map_values(|p: Parameter| p@)
}

/// A type declaration: its name always begins with a capital letter.  The
/// field collection has set semantics — no two equal entries — kept in
/// first-occurrence order.
pub struct Type {
    pub name: String,
    pub description: String,
    pub fields: Vec<Field>,
}

impl View for Type {
    type V = TypeModel;

    open spec fn view(&self) -> TypeModel {
        TypeModel {
            name: self.name@,
            description: self.description@,
            fields: fields_view(self.fields@),
        }
    }
}

impl Type {
    /// Builds a type declaration from its parts.
    pub fn new(name: String, description: String, fields: Vec<Field>) -> (r: Self)
        ensures
            r@ == (TypeModel {
                name: name@,
                description: description@,
                fields: fields_view(fields@),
            }),
    {
        Type { name, description, fields }
    }
}

/// A method declaration: its name always begins with a small letter.  The
/// parameters keep the order of the page's table rows.
pub struct Method {
    pub name: String,
    pub description: String,
    pub parameters: Vec<Parameter>,
}

impl View for Method {
    type V = MethodModel;

    open spec fn view(&self) -> MethodModel {
        MethodModel {
            name: self.name@,
            description: self.description@,
            parameters: parameters_view(self.parameters@),
        }
    }
}

impl Method {
    /// Builds a method declaration from its parts.
    pub fn new(name: String, description: String, parameters: Vec<Parameter>) -> (r: Self)
        ensures
            r@ == (MethodModel {
                name: name@,
                description: description@,
                parameters: parameters_view(parameters@),
            }),
    {
        Method { name, description, parameters }
    }
}

/// The models of a sequence of type declarations.
pub open spec fn types_view(v: Seq<Type>) -> Seq<TypeModel> {
    v.map_values(|t: Type| t@)
}

/// The models of a sequence of method declarations.
pub open spec fn methods_view(v: Seq<Method>) -> Seq<MethodModel> {
    v.map_values(|m: Method| m@)
}

/// Two fields hold the same name, canonical type, optional flag and
/// description.
pub fn field_eq(a: &Field, b: &Field) -> (r: bool)
    ensures
        r == (a@ == b@),
{
    let r = a.name == b.name && a.ty == b.ty && a.optional == b.optional && a.description
        == b.description;
    proof {
        if a.name@ == b.name@ && a.ty@ == b.ty@ && a.optional == b.optional && a.description@
            == b.description@ {
            assert(a@ == b@);
        }
    }
    r
}

/// Two parameters hold the same name, canonical type, required flag and
/// description.
pub fn param_eq(a: &Parameter, b: &Parameter) -> (r: bool)
    ensures
        r == (a@ == b@),
{
    let r = a.name == b.name && a.ty == b.ty && a.required == b.required && a.description
        == b.description;
    proof {
        if a.name@ == b.name@ && a.ty@ == b.ty@ && a.required == b.required && a.description@
            == b.description@ {
            assert(a@ == b@);
        }
    }
    r
}

/// Two type declarations agree in every part, fields included.
pub fn type_eq(a: &Type, b: &Type) -> (r: bool)
    ensures
        r == (a@ == b@),
{
    if !(a.name == b.name) {
        return false;
    }
    if !(a.description == b.description) {
        return false;
    }
    if a.fields.len() != b.fields.len() {
        proof {
            assert(fields_view(a.fields@).len() != fields_view(b.fields@).len());
        }
        return false;
    }
    let mut i: usize = 0;
    while i < a.fields.len()
        invariant
            i <= a.fields@.len(),
            a.fields@.len() == b.fields@.len(),
            forall|j: int| 0 <= j < i ==> fields_view(a.fields@)[j] == fields_view(b.fields@)[j],
        decreases a.fields@.len() - i,
    {
        if !field_eq(&a.fields[i], &b.fields[i]) {
            proof {
                assert(fields_view(a.fields@)[i as int] != fields_view(b.fields@)[i as int]);
            }
            return false;
        }
        i += 1;
    }
    proof {
        assert(fields_view(a.fields@) =~= fields_view(b.fields@));
        assert(a@ == b@);
    }
    true
}

/// Two method declarations agree in every part, parameters included.
pub fn method_eq(a: &Method, b: &Method) -> (r: bool)
    ensures
        r == (a@ == b@),
{
    if !(a.name == b.name) {
        return false;
    }
    if !(a.description == b.description) {
        return false;
    }
    if a.parameters.len() != b.parameters.len() {
        proof {
            assert(parameters_view(a.parameters@).len() != parameters_view(b.parameters@).len());
        }
        return false;
    }
    let mut i: usize = 0;
    while i < a.parameters.len()
        invariant
            i <= a.parameters@.len(),
            a.parameters@.len() == b.parameters@.len(),
            forall|j: int| 0 <= j < i ==> parameters_view(a.parameters@)[j] == parameters_view(
                b.parameters@,
            )[j],
        decreases a.parameters@.len() - i,
    {
        if !param_eq(&a.parameters[i], &b.parameters[i]) {
            proof {
                assert(parameters_view(a.parameters@)[i as int] != parameters_view(
                    b.parameters@,
                )[i as int]);
            }
            return false;
        }
        i += 1;
    }
    proof {
        assert(parameters_view(a.parameters@) =~= parameters_view(b.parameters@));
        assert(a@ == b@);
    }
    true
}

/// The type collection already holds an equal entry.
pub fn types_contain(v: &Vec<Type>, t: &Type) -> (r: bool)
    ensures
        r == types_view(v@).contains(t@),
{
    let mut i: usize = 0;
    while i < v.len()
        invariant
            i <= v@.len(),
            forall|j: int| 0 <= j < i ==> types_view(v@)[j] != t@,
        decreases v@.len() - i,
    {
        if type_eq(&v[i], t) {
            proof {
                assert(types_view(v@)[i as int] == t@);
            }
            return true;
        }
        i += 1;
    }
    false
}

/// The method collection already holds an equal entry.
pub fn methods_contain(v: &Vec<Method>, m: &Method) -> (r: bool)
    ensures
        r == methods_view(v@).contains(m@),
{
    let mut i: usize = 0;
    while i < v.len()
        invariant
            i <= v@.len(),
            forall|j: int| 0 <= j < i ==> methods_view(v@)[j] != m@,
        decreases v@.len() - i,
    {
        if method_eq(&v[i], m) {
            proof {
                assert(methods_view(v@)[i as int] == m@);
            }
            return true;
        }
        i += 1;
    }
    false
}

/// The field collection already holds an equal entry.
pub fn fields_contain(v: &Vec<Field>, f: &Field) -> (r: bool)
    ensures
        r == fields_view(v@).contains(f@),
{
    let mut i: usize = 0;
    while i < v.len()
        invariant
            i <= v@.len(),
            forall|j: int| 0 <= j < i ==> fields_view(v@)[j] != f@,
        decreases v@.len() - i,
    {
        if field_eq(&v[i], f) {
            proof {
                assert(fields_view(v@)[i as int] == f@);
            }
            return true;
        }
        i += 1;
    }
    false
}

} // verus!
