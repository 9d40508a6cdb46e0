//! Helper types for structured properties: postal addresses and telephone
//! numbers.
//!
//! These are typed conveniences over the value model; they take no part in
//! the decoding decisions themselves.

use vstd::prelude::*;

use crate::model::Property;
use crate::model::PropertyModel;
use crate::model::PropertyValue;
use crate::model::ValueModel;
use crate::model::vec_values_model;
use crate::params::opt_params_model;
use crate::params::params_upsert;
use crate::params::Parameters;

verus! {

broadcast use vstd::std_specs::vec::group_vec_axioms, vstd::seq::group_seq_axioms;

/// A postal address: the seven components of the vCard `adr` property, in
/// their fixed order.  An absent component is the empty string, not an
/// omission, so that the encoded structured value always has seven elements.
#[derive(Debug, Clone, Default, PartialEq)]
pub struct Address {
    pub post_office_box: String,
    pub extended_address: String,
    pub street_address: String,
    pub locality: String,
    pub region: String,
    pub postal_code: String,
    pub country: String,
}

/// The mathematical shape of an [`Address`].
pub struct AddressModel {
    pub post_office_box: Seq<char>,
    pub extended_address: Seq<char>,
    pub street_address: Seq<char>,
    pub locality: Seq<char>,
    pub region: Seq<char>,
    pub postal_code: Seq<char>,
    pub country: Seq<char>,
}

impl View for Address {
    type V = AddressModel;

    open spec fn view(&self) -> AddressModel {
        AddressModel {
            post_office_box: self.post_office_box@,
            extended_address: self.extended_address@,
            street_address: self.street_address@,
            locality: self.locality@,
            region: self.region@,
            postal_code: self.postal_code@,
            country: self.country@,
        }
    }
}

impl DeepView for Address {
    type V = AddressModel;

    open spec fn deep_view(&self) -> AddressModel {
        self.view()
    }
}

/// The structured value an address stands for: its seven components as
/// strings, in order.
pub open spec fn address_value_model(a: AddressModel) -> ValueModel {
    ValueModel::Structured(
        seq![
            ValueModel::Str(a.post_office_box),
            ValueModel::Str(a.extended_address),
            ValueModel::Str(a.street_address),
            ValueModel::Str(a.locality),
            ValueModel::Str(a.region),
            ValueModel::Str(a.postal_code),
            ValueModel::Str(a.country),
        ],
    )
}

/// The address described by seven component strings, in order.
pub open spec fn address_of_fields(fields: Seq<Seq<char>>) -> AddressModel
    recommends
        fields.len() == 7,
{
    AddressModel {
        post_office_box: fields[0],
        extended_address: fields[1],
        street_address: fields[2],
        locality: fields[3],
        region: fields[4],
        postal_code: fields[5],
        country: fields[6],
    }
}

/// The error of converting a string sequence of the wrong length into an
/// [`Address`].
#[derive(Debug, Clone, PartialEq)]
pub struct InvalidStructuredAddress;

impl Address {
    /// An address from its seven components, in order.
    pub fn new(
        post_office_box: &str,
        extended_address: &str,
        street_address: &str,
        locality: &str,
        region: &str,
        postal_code: &str,
        country: &str,
    ) -> (a: Address)
        ensures
            a@ == (AddressModel {
                post_office_box: post_office_box@,
                extended_address: extended_address@,
                street_address: street_address@,
                locality: locality@,
                region: region@,
                postal_code: postal_code@,
                country: country@,
            }),
    {
        Address {
            post_office_box: post_office_box.to_owned(),
            extended_address: extended_address.to_owned(),
            street_address: street_address.to_owned(),
            locality: locality.to_owned(),
            region: region.to_owned(),
            postal_code: postal_code.to_owned(),
            country: country.to_owned(),
        }
    }

    /// An address from a sequence of exactly seven component strings; any
    /// other length is an error.
    pub fn try_from(values: Vec<String>) -> (r: Result<Address, InvalidStructuredAddress>)
        ensures
            r is Ok <==> values.deep_view().len() == 7,
            r matches Ok(a) ==> a@ == address_of_fields(values.deep_view()),
    {
        if values.len() != 7 {
            return Err(InvalidStructuredAddress);
        }
        let mut values = values;
        let post_office_box = values.remove(0);
        let extended_address = values.remove(0);
        let street_address = values.remove(0);
        let locality = values.remove(0);
        let region = values.remove(0);
        let postal_code = values.remove(0);
        let country = values.remove(0);
        Ok(
            Address {
                post_office_box,
                extended_address,
                street_address,
                locality,
                region,
                postal_code,
                country,
            },
        )
    }

    /// The structured property value this address stands for.
    pub fn to_value(&self) -> (v: PropertyValue)
        ensures
            v@ == address_value_model(self@),
    {
        let parts = vec![
            PropertyValue::String(self.post_office_box.clone()),
            PropertyValue::String(self.extended_address.clone()),
            PropertyValue::String(self.street_address.clone()),
            PropertyValue::String(self.locality.clone()),
            PropertyValue::String(self.region.clone()),
            PropertyValue::String(self.postal_code.clone()),
            PropertyValue::String(self.country.clone()),
        ];
        proof {
            assert(vec_values_model(&parts) =~= address_value_model(self@)->Structured_0);
        }
        PropertyValue::Structured(parts)
    }

    /// The `adr` property this address stands for, without parameters.
    pub fn to_property(&self) -> (p: Property)
        ensures
            p@ == (PropertyModel {
                name: "adr"@,
                params: Seq::empty(),
                value_type: "text"@,
                values: seq![address_value_model(self@)],
            }),
    {
        Property::new_adr(self, None)
    }
}

/// A telephone type tag: the well-known tags `fax` and `voice`, or any other
/// tag kept verbatim.  Its canonical string form round-trips losslessly, so
/// unrecognized tags survive unchanged.
#[derive(Debug, Clone, PartialEq)]
pub enum Telephone {
    Fax,
    Voice,
    Other(String),
}

impl View for Telephone {
    type V = Seq<char>;

    /// The canonical string form of the tag.
    open spec fn view(&self) -> Seq<char> {
        match self {
            Telephone::Fax => "fax"@,
            Telephone::Voice => "voice"@,
            Telephone::Other(s) => s@,
        }
    }
}

impl DeepView for Telephone {
    type V = Seq<char>;

    open spec fn deep_view(&self) -> Seq<char> {
        self.view()
    }
}

impl Telephone {
    /// The canonical string form of the tag.
    pub fn as_str(&self) -> (s: &str)
        ensures
            s@ == self@,
    {
        match self {
            Telephone::Fax => "fax",
            Telephone::Voice => "voice",
            Telephone::Other(other) => other.as_str(),
        }
    }

    /// The tag a string form stands for.  Every string is meaningful: an
    /// unrecognized one becomes [`Telephone::Other`], so the conversion
    /// cannot fail and keeps the string form unchanged.
    pub fn from_str(s: &str) -> (t: Telephone)
        ensures
            t@ == s@,
            t is Fax <==> s@ == "fax"@,
            t is Voice <==> s@ == "voice"@,
    {
        proof {
            reveal_strlit("fax");
            reveal_strlit("voice");
        }
        let owned = s.to_owned();
        if owned == "fax".to_owned() {
            Telephone::Fax
        } else if owned == "voice".to_owned() {
            Telephone::Voice
        } else {
            Telephone::Other(owned)
        }
    }
}

impl Property {
    /// The address property, `adr`, with a structured seven-component value.
    pub fn new_adr(address: &Address, parameters: Option<Parameters>) -> (p: Property)
        ensures
            p@ == (PropertyModel {
                name: "adr"@,
                params: opt_params_model(parameters),
                value_type: "text"@,
                values: seq![address_value_model(address@)],
            }),
    {
        Self::new("adr", parameters, "text", address.to_value())
    }

    /// The telephone property, `tel`: a `tel:` URI value, with the telephone
    /// type recorded in the `type` parameter.
    pub fn new_tel(phone_type: &Telephone, number: &str, parameters: Option<Parameters>) -> (p:
        Property)
        ensures
            p@ == (PropertyModel {
                name: "tel"@,
                params: params_upsert(
                    opt_params_model(parameters),
                    "type"@,
                    seq![phone_type@],
                ),
                value_type: "uri"@,
                values: seq![ValueModel::Str("tel:"@ + number@)],
            }),
    {
        let mut params = match parameters {
            Some(p) => p,
            None => Parameters::new(),
        };
        let tag = phone_type.as_str().to_owned();
        let ghost tag_model = tag@;
        let tags = vec![tag];
        proof {
            assert(tags.deep_view() =~= seq![tag_model]);
        }
        params.insert("type".to_owned(), tags);
        let mut uri = "tel:".to_owned();
        uri.append(number);
        Self::new("tel", Some(params), "uri", PropertyValue::String(uri))
    }
}

} // verus!
