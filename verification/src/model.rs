//! The in-memory vCard model: values, properties, and the vCard itself.

use vstd::prelude::*;

use crate::params::opt_params_model;
use crate::params::Parameters;
use crate::params::ParamsModel;

verus! {

broadcast use vstd::std_specs::vec::group_vec_axioms, vstd::seq::group_seq_axioms;

/// One value of a property.
///
/// A value is a string, a boolean, a number, or a structured sequence of
/// sub-values (as in a postal address).  A number without a fractional or
/// exponent part is an [`PropertyValue::Integer`]; any other number is a
/// [`PropertyValue::Float`] carrying the bit pattern of the `f64` it denotes,
/// which the codec moves around without ever computing with it.
#[derive(Debug, PartialEq)]
pub enum PropertyValue {
    /// A text value.
    String(String),
    /// A boolean value.
    Bool(bool),
    /// An integral number.
    Integer(i64),
    /// A non-integral number, as the bit pattern of an `f64`.
    Float(u64),
    /// An ordered sequence of sub-values.
    Structured(Vec<PropertyValue>),
}

/// The mathematical shape of a [`PropertyValue`], used by all contracts.
pub enum ValueModel {
    Str(Seq<char>),
    Bool(bool),
    Int(i64),
    Float(u64),
    Structured(Seq<ValueModel>),
}

impl View for PropertyValue {
    type V = ValueModel;

    open spec fn view(&self) -> ValueModel
        decreases self,
    {
        match self {
            PropertyValue::String(s) => ValueModel::Str(s@),
            PropertyValue::Bool(b) => ValueModel::Bool(*b),
            PropertyValue::Integer(i) => ValueModel::Int(*i),
            PropertyValue::Float(bits) => ValueModel::Float(*bits),
            PropertyValue::Structured(vs) => ValueModel::Structured(vec_values_model(vs)),
        }
    }
}

impl DeepView for PropertyValue {
    type V = ValueModel;

    open spec fn deep_view(&self) -> ValueModel {
        self.view()
    }
}

/// The models of a vector of property values, elementwise.
pub open spec fn vec_values_model(v: &Vec<PropertyValue>) -> Seq<ValueModel>
    decreases v,
{
    values_model(v@)
}

/// The models of a sequence of property values, elementwise.
pub open spec fn values_model(s: Seq<PropertyValue>) -> Seq<ValueModel>
    decreases s,
{
    Seq::new(
        s.len(),
        |i: int|
            if 0 <= i < s.len() {
                s[i]@
            } else {
                ValueModel::Bool(false)
            },
    )
}

/// One entry of a vCard, such as a formatted name or a telephone number.
#[derive(Debug, PartialEq)]
pub struct Property {
    /// The property name, e.g. `"fn"`.  Free form, because the format is
    /// extensible.
    pub name: String,

    /// The property parameters, such as a language or a preference value.
    pub parameters: Parameters,

    /// The declared value type, e.g. `"text"`.
    pub value_type: String,

    /// One or more values.  The format never allows a property without
    /// values: both the decoder and the encoder reject an empty sequence.
    pub values: Vec<PropertyValue>,
}

/// The mathematical shape of a [`Property`].
pub struct PropertyModel {
    pub name: Seq<char>,
    pub params: ParamsModel,
    pub value_type: Seq<char>,
    pub values: Seq<ValueModel>,
}

impl View for Property {
    type V = PropertyModel;

    open spec fn view(&self) -> PropertyModel {
        PropertyModel {
            name: self.name@,
            params: self.parameters@,
            value_type: self.value_type@,
            values: vec_values_model(&self.values),
        }
    }
}

impl DeepView for Property {
    type V = PropertyModel;

    open spec fn deep_view(&self) -> PropertyModel {
        self.view()
    }
}

/// The models of a sequence of properties, elementwise.
pub open spec fn props_model(s: Seq<Property>) -> Seq<PropertyModel> {
    Seq::new(s.len(), |i: int| s[i]@)
}

/// A whole vCard: a version string and an ordered sequence of properties.
#[derive(Debug, PartialEq)]
pub struct Vcard {
    /// The version of the card, tracked apart from the properties.  The
    /// decoder extracts it from the first property named `version` (compared
    /// without regard to letter case); the encoder writes it back as the
    /// first property.
    pub version: String,

    /// The properties of the card, in order.
    ///
    /// A property named `version` does not belong here: set
    /// [`Vcard::version`] instead, and the encoder will write it first.
    pub properties: Vec<Property>,
}

/// The mathematical shape of a [`Vcard`].
pub struct VcardModel {
    pub version: Seq<char>,
    pub properties: Seq<PropertyModel>,
}

impl View for Vcard {
    type V = VcardModel;

    open spec fn view(&self) -> VcardModel {
        VcardModel { version: self.version@, properties: props_model(self.properties@) }
    }
}

impl DeepView for Vcard {
    type V = VcardModel;

    open spec fn deep_view(&self) -> VcardModel {
        self.view()
    }
}

impl Default for Vcard {
    /// An empty card with the default version `"4.0"`.
    fn default() -> (v: Vcard)
        ensures
            v@.version == "4.0"@,
            v@.properties == Seq::<PropertyModel>::empty(),
    {
        let properties: Vec<Property> = Vec::new();
        proof {
            assert(props_model(properties@) =~= Seq::<PropertyModel>::empty());
        }
        Vcard { version: "4.0".to_owned(), properties }
    }
}

impl Vcard {
    /// Appends a property to the card.
    pub fn push(&mut self, property: Property)
        ensures
            final(self)@.version == old(self)@.version,
            final(self)@.properties == old(self)@.properties.push(property@),
    {
        let ghost orig = self@.properties;
        self.properties.push(property);
        proof {
            assert(props_model(self.properties@) =~= orig.push(property@));
        }
    }
}

impl Property {
    /// A property with a single value.
    pub fn new(name: &str, parameters: Option<Parameters>, value_type: &str, value: PropertyValue) -> (p:
        Property)
        ensures
            p@ == (PropertyModel {
                name: name@,
                params: opt_params_model(parameters),
                value_type: value_type@,
                values: seq![value@],
            }),
    {
        let ghost value_model = value@;
        let values = vec![value];
        proof {
            assert(vec_values_model(&values) =~= seq![value_model]);
        }
        Property {
            name: name.to_owned(),
            parameters: (match parameters {
                Some(p) => p,
                None => Parameters::new(),
            }),
            value_type: value_type.to_owned(),
            values,
        }
    }

    /// A property with one or more values.
    pub fn new_multivalued(
        name: &str,
        parameters: Option<Parameters>,
        value_type: &str,
        values: Vec<PropertyValue>,
    ) -> (p: Property)
        ensures
            p@ == (PropertyModel {
                name: name@,
                params: opt_params_model(parameters),
                value_type: value_type@,
                values: vec_values_model(&values),
            }),
    {
        Property {
            name: name.to_owned(),
            parameters: (match parameters {
                Some(p) => p,
                None => Parameters::new(),
            }),
            value_type: value_type.to_owned(),
            values,
        }
    }

    /// The formatted-name property, `fn`.
    pub fn new_fn(formatted: &str, parameters: Option<Parameters>) -> (p: Property)
        ensures
            p@ == (PropertyModel {
                name: "fn"@,
                params: opt_params_model(parameters),
                value_type: "text"@,
                values: seq![ValueModel::Str(formatted@)],
            }),
    {
        Self::new("fn", parameters, "text", PropertyValue::String(formatted.to_owned()))
    }

    /// The organization property, `org`.  The value is a single string for a
    /// plain name, or a structured value for a name with units.
    pub fn new_org(org: PropertyValue, parameters: Option<Parameters>) -> (p: Property)
        ensures
            p@ == (PropertyModel {
                name: "org"@,
                params: opt_params_model(parameters),
                value_type: "text"@,
                values: seq![org@],
            }),
    {
        Self::new("org", parameters, "text", org)
    }

    /// The electronic-mail property, `email`.
    pub fn new_email(email: &str, parameters: Option<Parameters>) -> (p: Property)
        ensures
            p@ == (PropertyModel {
                name: "email"@,
                params: opt_params_model(parameters),
                value_type: "text"@,
                values: seq![ValueModel::Str(email@)],
            }),
    {
        Self::new("email", parameters, "text", PropertyValue::String(email.to_owned()))
    }
}

} // verus!
