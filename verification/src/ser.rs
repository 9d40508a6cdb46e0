//! The encoder: from the vCard model to a jCard JSON tree.
//!
//! The encoder writes a two-element array: the literal `"vcard"`, then the
//! property list with a synthesized `version` property in first position.
//! Three shape rules matter: a structured value with a single element is
//! flattened to that element's own encoding, a parameter entry with a single
//! value is written as a bare string, and the several values of a property
//! are spliced into the property array itself, not nested.  Every encoding
//! decision is stated by the `enc_*` specification functions, and each
//! executable method is proved to return exactly what they describe.

use vstd::prelude::*;

use crate::error::ErrorModel;
use crate::error::JCardError;
use crate::json::elems_model;
use crate::json::members_model;
use crate::json::Json;
use crate::json::JsonModel;
use crate::model::values_model;
use crate::model::vec_values_model;
use crate::model::Property;
use crate::model::PropertyModel;
use crate::model::PropertyValue;
use crate::model::ValueModel;
use crate::model::Vcard;
use crate::model::VcardModel;
use crate::params::Parameters;
use crate::params::ParamsModel;

verus! {

broadcast use vstd::std_specs::vec::group_vec_axioms, vstd::seq::group_seq_axioms;

/// The model of an encode result.
pub open spec fn json_result_model(r: Result<Json, JCardError>) -> Result<JsonModel, ErrorModel> {
    match r {
        Ok(j) => Ok(j@),
        Err(e) => Err(e@),
    }
}

/// What encoding one value yields: a string, boolean or number maps to the
/// JSON node of the same kind; a structured sequence with one element
/// flattens to that element's own encoding, with two or more becomes a JSON
/// array, and with none is an error.
pub open spec fn enc_value(v: ValueModel) -> Result<JsonModel, ErrorModel>
    decreases v, 0nat,
{
    match v {
        ValueModel::Str(s) => Ok(JsonModel::Str(s)),
        ValueModel::Bool(b) => Ok(JsonModel::Bool(b)),
        ValueModel::Int(i) => Ok(JsonModel::Int(i)),
        ValueModel::Float(bits) => Ok(JsonModel::Float(bits)),
        ValueModel::Structured(vs) => {
            if vs.len() == 0 {
                Err(ErrorModel::Empty { what: "empty structured value"@ })
            } else {
                match enc_values_from(vs, 0) {
                    Ok(elems) => if vs.len() == 1 {
                        Ok(elems[0])
                    } else {
                        Ok(JsonModel::Arr(elems))
                    },
                    Err(e) => Err(e),
                }
            }
        },
    }
}

/// What encoding the values from position `i` on yields: each value's own
/// encoding in order, or the first error.
pub open spec fn enc_values_from(vs: Seq<ValueModel>, i: int) -> Result<Seq<JsonModel>, ErrorModel>
    decreases vs, vs.len() - i,
{
    if i < 0 || i >= vs.len() {
        Ok(Seq::empty())
    } else {
        match enc_value(vs[i]) {
            Ok(j) => match enc_values_from(vs, i + 1) {
                Ok(rest) => Ok(seq![j] + rest),
                Err(e) => Err(e),
            },
            Err(e) => Err(e),
        }
    }
}

/// What encoding one parameter entry's values yields: a single value as a
/// bare string, several as an array of strings, none as an error.
pub open spec fn enc_param_values(values: Seq<Seq<char>>) -> Result<JsonModel, ErrorModel> {
    if values.len() == 0 {
        Err(ErrorModel::Empty { what: "vcard property parameter is an empty array"@ })
    } else if values.len() == 1 {
        Ok(JsonModel::Str(values[0]))
    } else {
        Ok(JsonModel::Arr(Seq::new(values.len(), |i: int| JsonModel::Str(values[i]))))
    }
}

/// What encoding the parameter entries from position `i` on yields.
pub open spec fn enc_params_from(entries: ParamsModel, i: int) -> Result<
    Seq<(Seq<char>, JsonModel)>,
    ErrorModel,
>
    decreases entries.len() - i,
{
    if i < 0 || i >= entries.len() {
        Ok(Seq::empty())
    } else {
        match enc_param_values(entries[i].1) {
            Ok(j) => match enc_params_from(entries, i + 1) {
                Ok(rest) => Ok(seq![(entries[i].0, j)] + rest),
                Err(e) => Err(e),
            },
            Err(e) => Err(e),
        }
    }
}

/// What encoding a whole parameter map yields: a JSON object.
pub open spec fn enc_params(entries: ParamsModel) -> Result<JsonModel, ErrorModel> {
    match enc_params_from(entries, 0) {
        Ok(members) => Ok(JsonModel::Obj(members)),
        Err(e) => Err(e),
    }
}

/// What encoding a property yields: the flat array of name, parameter
/// object, value type, and then every value spliced in at this level.  A
/// property without values is an error.
pub open spec fn enc_property(p: PropertyModel) -> Result<JsonModel, ErrorModel> {
    if p.values.len() == 0 {
        Err(ErrorModel::Empty { what: "at least one value must be present in a property"@ })
    } else {
        match enc_params(p.params) {
            Ok(params_json) => match enc_values_from(p.values, 0) {
                Ok(vals) => Ok(
                    JsonModel::Arr(
                        seq![JsonModel::Str(p.name), params_json, JsonModel::Str(p.value_type)]
                            + vals,
                    ),
                ),
                Err(e) => Err(e),
            },
            Err(e) => Err(e),
        }
    }
}

/// What encoding the properties from position `i` on yields.
pub open spec fn enc_properties_from(props: Seq<PropertyModel>, i: int) -> Result<
    Seq<JsonModel>,
    ErrorModel,
>
    decreases props.len() - i,
{
    if i < 0 || i >= props.len() {
        Ok(Seq::empty())
    } else {
        match enc_property(props[i]) {
            Ok(j) => match enc_properties_from(props, i + 1) {
                Ok(rest) => Ok(seq![j] + rest),
                Err(e) => Err(e),
            },
            Err(e) => Err(e),
        }
    }
}

/// The property the encoder synthesizes for the version: name `version`, no
/// parameters, value type `text`, and the version string as sole value.
pub open spec fn version_property_model(version: Seq<char>) -> PropertyModel {
    PropertyModel {
        name: "version"@,
        params: Seq::empty(),
        value_type: "text"@,
        values: seq![ValueModel::Str(version)],
    }
}

/// What encoding a whole card yields: the array of the literal `"vcard"`
/// and the property list, the synthesized version property first.
pub open spec fn enc_vcard(v: VcardModel) -> Result<JsonModel, ErrorModel> {
    match enc_property(version_property_model(v.version)) {
        Ok(version_json) => match enc_properties_from(v.properties, 0) {
            Ok(props_json) => Ok(
                JsonModel::Arr(
                    seq![
                        JsonModel::Str("vcard"@),
                        JsonModel::Arr(seq![version_json] + props_json),
                    ],
                ),
            ),
            Err(e) => Err(e),
        },
        Err(e) => Err(e),
    }
}

impl PropertyValue {
    /// Encodes this value as a JSON node, by the rules of [`enc_value`].
    #[verifier::loop_isolation(false)]
    pub fn encode(&self) -> (r: Result<Json, JCardError>)
        ensures
            json_result_model(r) == enc_value(self@),
        decreases self,
    {
        match self {
            PropertyValue::String(s) => Ok(Json::Str(s.clone())),
            PropertyValue::Bool(b) => Ok(Json::Bool(*b)),
            PropertyValue::Integer(i) => Ok(Json::Int(*i)),
            PropertyValue::Float(bits) => Ok(Json::Float(*bits)),
            PropertyValue::Structured(vs) => {
                if vs.len() == 0 {
                    return Err(
                        JCardError::Empty { what: "empty structured value".to_owned() },
                    );
                }
                let ghost models = vec_values_model(vs);
                let mut elems: Vec<Json> = Vec::new();
                let mut i: usize = 0;
                while i < vs.len()
                    invariant
                        0 <= i <= vs.len(),
                        enc_values_from(models, 0) == (match enc_values_from(models, i as int) {
                            Ok(rest) => Ok::<_, ErrorModel>(elems_model(elems@) + rest),
                            Err(e) => Err(e),
                        }),
                    decreases vs.len() - i,
                {
                    let ghost prev = elems@;
                    match vs[i].encode() {
                        Ok(j) => {
                            proof {
                                assert(models[i as int] == vs@[i as int]@);
                            }
                            elems.push(j);
                            proof {
                                assert(elems_model(elems@) =~= elems_model(prev).push(j@));
                                if enc_values_from(models, i + 1 as int) is Ok {
                                    let rest = enc_values_from(models, i + 1 as int)->Ok_0;
                                    assert((elems_model(prev) + (seq![j@] + rest)) =~= (
                                    elems_model(elems@) + rest));
                                }
                            }
                        },
                        Err(e) => {
                            return Err(e);
                        },
                    }
                    i = i + 1;
                }
                proof {
                    assert(elems_model(elems@) + Seq::<JsonModel>::empty() =~= elems_model(
                        elems@,
                    ));
                }
                if vs.len() == 1 {
                    let mut elems = elems;
                    let single = elems.remove(0);
                    Ok(single)
                } else {
                    Ok(Json::Arr(elems))
                }
            },
        }
    }
}

impl Parameters {
    /// Encodes this parameter map as a JSON object, by the rules of
    /// [`enc_params`].
    #[verifier::loop_isolation(false)]
    pub fn encode(&self) -> (r: Result<Json, JCardError>)
        ensures
            json_result_model(r) == enc_params(self@),
    {
        let ghost model = self@;
        let mut members: Vec<(String, Json)> = Vec::new();
        let mut i: usize = 0;
        while i < self.entries.len()
            invariant
                0 <= i <= self.entries.len(),
                enc_params_from(model, 0) == (match enc_params_from(model, i as int) {
                    Ok(rest) => Ok::<_, ErrorModel>(members_model(members@) + rest),
                    Err(e) => Err(e),
                }),
            decreases self.entries.len() - i,
        {
            let ghost prev = members@;
            let entry_values = &self.entries[i].1;
            proof {
                assert(model[i as int] == (self.entries@[i as int].0@, entry_values.deep_view()));
            }
            if entry_values.len() == 0 {
                return Err(
                    JCardError::Empty {
                        what: "vcard property parameter is an empty array".to_owned(),
                    },
                );
            }
            let value_json: Json = if entry_values.len() == 1 {
                Json::Str(entry_values[0].clone())
            } else {
                let mut strings: Vec<Json> = Vec::new();
                let mut k: usize = 0;
                while k < entry_values.len()
                    invariant
                        0 <= k <= entry_values.len(),
                        strings@.len() == k,
                        forall|m: int| 0 <= m < k ==> strings@[m]@ == JsonModel::Str(
                            entry_values.deep_view()[m],
                        ),
                    decreases entry_values.len() - k,
                {
                    strings.push(Json::Str(entry_values[k].clone()));
                    k = k + 1;
                }
                proof {
                    assert(elems_model(strings@) =~= Seq::new(
                        entry_values.deep_view().len(),
                        |m: int| JsonModel::Str(entry_values.deep_view()[m]),
                    ));
                }
                Json::Arr(strings)
            };
            proof {
                assert(enc_param_values(model[i as int].1) == Ok::<_, ErrorModel>(value_json@));
            }
            let key = self.entries[i].0.clone();
            members.push((key, value_json));
            proof {
                assert(members_model(members@) =~= members_model(prev).push(
                    (self.entries@[i as int].0@, value_json@),
                ));
                if enc_params_from(model, i + 1 as int) is Ok {
                    let rest = enc_params_from(model, i + 1 as int)->Ok_0;
                    assert((members_model(prev) + (seq![(model[i as int].0, value_json@)] + rest))
                        =~= (members_model(members@) + rest));
                }
            }
            i = i + 1;
        }
        proof {
            assert(members_model(members@) + Seq::<(Seq<char>, JsonModel)>::empty()
                =~= members_model(members@));
        }
        Ok(Json::Obj(members))
    }
}

impl Property {
    /// Encodes this property as a flat JSON array, by the rules of
    /// [`enc_property`].
    #[verifier::loop_isolation(false)]
    pub fn encode(&self) -> (r: Result<Json, JCardError>)
        ensures
            json_result_model(r) == enc_property(self@),
    {
        if self.values.len() == 0 {
            return Err(
                JCardError::Empty {
                    what: "at least one value must be present in a property".to_owned(),
                },
            );
        }
        let params_json = match self.parameters.encode() {
            Ok(j) => j,
            Err(e) => {
                return Err(e);
            },
        };
        let ghost models = vec_values_model(&self.values);
        let mut vals: Vec<Json> = Vec::new();
        let mut i: usize = 0;
        while i < self.values.len()
            invariant
                0 <= i <= self.values.len(),
                enc_values_from(models, 0) == (match enc_values_from(models, i as int) {
                    Ok(rest) => Ok::<_, ErrorModel>(elems_model(vals@) + rest),
                    Err(e) => Err(e),
                }),
            decreases self.values.len() - i,
        {
            let ghost prev = vals@;
            match self.values[i].encode() {
                Ok(j) => {
                    proof {
                        assert(models[i as int] == self.values@[i as int]@);
                    }
                    vals.push(j);
                    proof {
                        assert(elems_model(vals@) =~= elems_model(prev).push(j@));
                        if enc_values_from(models, i + 1 as int) is Ok {
                            let rest = enc_values_from(models, i + 1 as int)->Ok_0;
                            assert((elems_model(prev) + (seq![j@] + rest)) =~= (elems_model(vals@)
                                + rest));
                        }
                    }
                },
                Err(e) => {
                    return Err(e);
                },
            }
            i = i + 1;
        }
        proof {
            assert(elems_model(vals@) + Seq::<JsonModel>::empty() =~= elems_model(vals@));
        }
        let mut elems: Vec<Json> = Vec::new();
        elems.push(Json::Str(self.name.clone()));
        elems.push(params_json);
        elems.push(Json::Str(self.value_type.clone()));
        let mut vals = vals;
        elems.append(&mut vals);
        proof {
            assert(elems_model(elems@) =~= seq![
                JsonModel::Str(self@.name),
                params_json@,
                JsonModel::Str(self@.value_type),
            ] + enc_values_from(models, 0)->Ok_0);
        }
        Ok(Json::Arr(elems))
    }
}

impl Vcard {
    /// Encodes this card as a jCard JSON tree, by the rules of
    /// [`enc_vcard`].
    #[verifier::loop_isolation(false)]
    pub fn encode(&self) -> (r: Result<Json, JCardError>)
        ensures
            json_result_model(r) == enc_vcard(self@),
    {
        let version_property = Property::new(
            "version",
            None,
            "text",
            PropertyValue::String(self.version.clone()),
        );
        proof {
            assert(version_property@ == version_property_model(self@.version));
        }
        let version_json = match version_property.encode() {
            Ok(j) => j,
            Err(e) => {
                return Err(e);
            },
        };
        let ghost models = self@.properties;
        let mut props_json: Vec<Json> = Vec::new();
        let mut i: usize = 0;
        while i < self.properties.len()
            invariant
                0 <= i <= self.properties.len(),
                enc_properties_from(models, 0) == (match enc_properties_from(models, i as int) {
                    Ok(rest) => Ok::<_, ErrorModel>(elems_model(props_json@) + rest),
                    Err(e) => Err(e),
                }),
            decreases self.properties.len() - i,
        {
            let ghost prev = props_json@;
            match self.properties[i].encode() {
                Ok(j) => {
                    proof {
                        assert(models[i as int] == self.properties@[i as int]@);
                    }
                    props_json.push(j);
                    proof {
                        assert(elems_model(props_json@) =~= elems_model(prev).push(j@));
                        if enc_properties_from(models, i + 1 as int) is Ok {
                            let rest = enc_properties_from(models, i + 1 as int)->Ok_0;
                            assert((elems_model(prev) + (seq![j@] + rest)) =~= (elems_model(
                                props_json@,
                            ) + rest));
                        }
                    }
                },
                Err(e) => {
                    return Err(e);
                },
            }
            i = i + 1;
        }
        proof {
            assert(elems_model(props_json@) + Seq::<JsonModel>::empty() =~= elems_model(
                props_json@,
            ));
        }
        let mut list: Vec<Json> = Vec::new();
        list.push(version_json);
        let mut props_json = props_json;
        list.append(&mut props_json);
        proof {
            assert(elems_model(list@) =~= seq![version_json@] + enc_properties_from(
                models,
                0,
            )->Ok_0);
        }
        let mut top: Vec<Json> = Vec::new();
        top.push(Json::Str("vcard".to_owned()));
        top.push(Json::Arr(list));
        proof {
            assert(elems_model(top@) =~= seq![
                JsonModel::Str("vcard"@),
                JsonModel::Arr(elems_model(list@)),
            ]);
        }
        Ok(Json::Arr(top))
    }
}

} // verus!
