//! The decoder: from a jCard JSON tree to the vCard model.
//!
//! Decoding is shape-driven, because the format is untagged at the JSON
//! level: a string becomes a text value, a boolean a boolean value, a number
//! an integer or float value, an array a structured value, and nothing else
//! is accepted in a value slot.  A property array must open with three fixed
//! slots (name, parameter object, value type) and carry at least one value
//! after them.  After the property list is decoded, the first property named
//! `version` (compared without regard to ASCII letter case) is unwrapped
//! into the card's version string and removed from the list; if there is
//! none, the version defaults to the empty string.  Every decoding decision
//! is stated by the `dec_*` specification functions, and each executable
//! method is proved to return exactly what they describe.

use vstd::prelude::*;
use vstd::string::StrSliceExecFns;

use crate::error::ErrorModel;
use crate::error::JCardError;
use crate::json::Json;
use crate::json::JsonModel;
use crate::model::vec_values_model;
use crate::model::Property;
use crate::model::PropertyModel;
use crate::model::PropertyValue;
use crate::model::ValueModel;
use crate::model::Vcard;
use crate::model::VcardModel;
use crate::model::props_model;
use crate::params::params_upsert;
use crate::params::Parameters;
use crate::params::ParamsModel;

verus! {

broadcast use vstd::std_specs::vec::group_vec_axioms, vstd::seq::group_seq_axioms;

/// The model of a decoded value result.
pub open spec fn value_result_model(r: Result<PropertyValue, JCardError>) -> Result<
    ValueModel,
    ErrorModel,
> {
    match r {
        Ok(v) => Ok(v@),
        Err(e) => Err(e@),
    }
}

/// The model of a decoded parameter-map result.
pub open spec fn params_result_model(r: Result<Parameters, JCardError>) -> Result<
    ParamsModel,
    ErrorModel,
> {
    match r {
        Ok(p) => Ok(p@),
        Err(e) => Err(e@),
    }
}

/// The model of a decoded property result.
pub open spec fn property_result_model(r: Result<Property, JCardError>) -> Result<
    PropertyModel,
    ErrorModel,
> {
    match r {
        Ok(p) => Ok(p@),
        Err(e) => Err(e@),
    }
}

/// The model of a decoded card result.
pub open spec fn vcard_result_model(r: Result<Vcard, JCardError>) -> Result<
    VcardModel,
    ErrorModel,
> {
    match r {
        Ok(v) => Ok(v@),
        Err(e) => Err(e@),
    }
}

/// The error for a JSON node that cannot stand in a value slot.
pub open spec fn value_shape_error() -> ErrorModel {
    ErrorModel::Shape { expected: "a string, boolean, number, or array value"@ }
}

/// The error for a parameter entry whose value is neither a string nor an
/// array of strings.
pub open spec fn param_shape_error() -> ErrorModel {
    ErrorModel::Shape { expected: "a map from string to one or multiple strings"@ }
}

/// The error for a property array whose fixed slot `index` is missing or of
/// the wrong kind.
pub open spec fn property_slot_error(index: int) -> ErrorModel {
    ErrorModel::Length { index, expected: "an array of at least 4 elements"@ }
}

/// What decoding one value slot yields, by shape: a string, boolean or
/// number maps to the value of the same kind, an array decodes recursively
/// into a structured value, and any other node is an error.
pub open spec fn dec_value(j: JsonModel) -> Result<ValueModel, ErrorModel>
    decreases j, 0nat,
{
    match j {
        JsonModel::Str(s) => Ok(ValueModel::Str(s)),
        JsonModel::Bool(b) => Ok(ValueModel::Bool(b)),
        JsonModel::Int(i) => Ok(ValueModel::Int(i)),
        JsonModel::Float(bits) => Ok(ValueModel::Float(bits)),
        JsonModel::Arr(elems) => match dec_values_from(elems, 0) {
            Ok(vs) => Ok(ValueModel::Structured(vs)),
            Err(e) => Err(e),
        },
        JsonModel::Obj(_) => Err(value_shape_error()),
        JsonModel::Null => Err(value_shape_error()),
    }
}

/// What decoding the value slots from position `i` on yields: each slot's
/// own decoding in order, or the first error.
pub open spec fn dec_values_from(elems: Seq<JsonModel>, i: int) -> Result<
    Seq<ValueModel>,
    ErrorModel,
>
    decreases elems, elems.len() - i,
{
    if i < 0 || i >= elems.len() {
        Ok(Seq::empty())
    } else {
        match dec_value(elems[i]) {
            Ok(v) => match dec_values_from(elems, i + 1) {
                Ok(rest) => Ok(seq![v] + rest),
                Err(e) => Err(e),
            },
            Err(e) => Err(e),
        }
    }
}

/// What decoding one parameter entry's value yields: a bare string becomes
/// a one-element list, an array of strings becomes that list, and any other
/// shape is an error.
pub open spec fn dec_param_value(j: JsonModel) -> Result<Seq<Seq<char>>, ErrorModel> {
    match j {
        JsonModel::Str(s) => Ok(seq![s]),
        JsonModel::Arr(elems) => if forall|k: int| 0 <= k < elems.len() ==> elems[k] is Str {
            Ok(Seq::new(elems.len(), |k: int| elems[k]->Str_0))
        } else {
            Err(param_shape_error())
        },
        _ => Err(param_shape_error()),
    }
}

/// What decoding the parameter members from position `i` on adds to the
/// entries already decoded: each member in order, a repeated name replacing
/// the values it had.
pub open spec fn dec_params_from(
    members: Seq<(Seq<char>, JsonModel)>,
    i: int,
    acc: ParamsModel,
) -> Result<ParamsModel, ErrorModel>
    decreases members.len() - i,
{
    if i < 0 || i >= members.len() {
        Ok(acc)
    } else {
        match dec_param_value(members[i].1) {
            Ok(values) => dec_params_from(members, i + 1, params_upsert(acc, members[i].0, values)),
            Err(e) => Err(e),
        }
    }
}

/// What decoding a whole parameter object yields.
pub open spec fn dec_params(members: Seq<(Seq<char>, JsonModel)>) -> Result<
    ParamsModel,
    ErrorModel,
> {
    dec_params_from(members, 0, Seq::empty())
}

/// What decoding a property array yields: the three fixed slots, then one or
/// more values.  A missing or wrongly-typed fixed slot is a length error
/// naming the slot reached; a property without values is an error.
pub open spec fn dec_property(j: JsonModel) -> Result<PropertyModel, ErrorModel> {
    match j {
        JsonModel::Arr(elems) => if elems.len() < 1 || !(elems[0] is Str) {
            Err(property_slot_error(0))
        } else if elems.len() < 2 || !(elems[1] is Obj) {
            Err(property_slot_error(1))
        } else {
            match dec_params(elems[1]->Obj_0) {
                Ok(params) => if elems.len() < 3 || !(elems[2] is Str) {
                    Err(property_slot_error(2))
                } else {
                    match dec_values_from(elems, 3) {
                        Ok(values) => if values.len() == 0 {
                            Err(
                                ErrorModel::Empty {
                                    what: "at least one value of the jCard property"@,
                                },
                            )
                        } else {
                            Ok(
                                PropertyModel {
                                    name: elems[0]->Str_0,
                                    params,
                                    value_type: elems[2]->Str_0,
                                    values,
                                },
                            )
                        },
                        Err(e) => Err(e),
                    }
                },
                Err(e) => Err(e),
            }
        },
        _ => Err(ErrorModel::Shape { expected: "an RFC 7095 jCard property"@ }),
    }
}

/// What decoding the property list entries from position `i` on yields.
pub open spec fn dec_properties_from(elems: Seq<JsonModel>, i: int) -> Result<
    Seq<PropertyModel>,
    ErrorModel,
>
    decreases elems.len() - i,
{
    if i < 0 || i >= elems.len() {
        Ok(Seq::empty())
    } else {
        match dec_property(elems[i]) {
            Ok(p) => match dec_properties_from(elems, i + 1) {
                Ok(rest) => Ok(seq![p] + rest),
                Err(e) => Err(e),
            },
            Err(e) => Err(e),
        }
    }
}

/// Whether a property name equals `version` without regard to ASCII letter
/// case.
pub open spec fn is_version_name(s: Seq<char>) -> bool {
    &&& s.len() == 7
    &&& (s[0] == 'v' || s[0] == 'V')
    &&& (s[1] == 'e' || s[1] == 'E')
    &&& (s[2] == 'r' || s[2] == 'R')
    &&& (s[3] == 's' || s[3] == 'S')
    &&& (s[4] == 'i' || s[4] == 'I')
    &&& (s[5] == 'o' || s[5] == 'O')
    &&& (s[6] == 'n' || s[6] == 'N')
}

/// The position of the first version-named property at or after position
/// `i`.
pub open spec fn first_version_index_from(props: Seq<PropertyModel>, i: int) -> Option<int>
    decreases props.len() - i,
{
    if i < 0 || i >= props.len() {
        None
    } else if is_version_name(props[i].name) {
        Some(i)
    } else {
        first_version_index_from(props, i + 1)
    }
}

/// The version string a value carries: it must be a plain string.
pub open spec fn version_string_of(v: ValueModel) -> Result<Seq<char>, ErrorModel> {
    match v {
        ValueModel::Str(s) => Ok(s),
        _ => Err(ErrorModel::Shape { expected: "a string version property"@ }),
    }
}

/// The version string a version-named property carries: its sole value,
/// unwrapped from a one-element structured value if present, and required to
/// be a string.
pub open spec fn extract_version(p: PropertyModel) -> Result<Seq<char>, ErrorModel> {
    if p.values.len() != 1 {
        Err(
            ErrorModel::Length {
                index: p.values.len() as int,
                expected: "exactly one value in the jCard version property"@,
            },
        )
    } else {
        match p.values[0] {
            ValueModel::Structured(inner) => if inner.len() == 1 {
                version_string_of(inner[0])
            } else {
                Err(
                    ErrorModel::Length {
                        index: 1,
                        expected: "a non-structured version property"@,
                    },
                )
            },
            v => version_string_of(v),
        }
    }
}

/// What decoding a whole document yields: the two-element array headed by
/// the literal `"vcard"`, its property list decoded, and the first
/// version-named property extracted into the version string (the empty
/// string when there is none).  Array elements past the second are ignored.
pub open spec fn dec_vcard(j: JsonModel) -> Result<VcardModel, ErrorModel> {
    match j {
        JsonModel::Arr(elems) => if elems.len() == 0 {
            Err(
                ErrorModel::Length {
                    index: 0,
                    expected: "a non-empty array starting with a \"vcard\" header"@,
                },
            )
        } else if !(elems[0] is Str) || elems[0]->Str_0 != "vcard"@ {
            Err(ErrorModel::Value { expected: "a \"vcard\" header string"@ })
        } else if elems.len() < 2 || !(elems[1] is Arr) {
            Err(
                ErrorModel::Value {
                    expected: "an array of jCard properties as the second element"@,
                },
            )
        } else {
            match dec_properties_from(elems[1]->Arr_0, 0) {
                Ok(props) => match first_version_index_from(props, 0) {
                    None => Ok(VcardModel { version: Seq::empty(), properties: props }),
                    Some(vi) => match extract_version(props[vi]) {
                        Ok(version) => Ok(
                            VcardModel { version, properties: props.remove(vi) },
                        ),
                        Err(e) => Err(e),
                    },
                },
                Err(e) => Err(e),
            }
        },
        _ => Err(ErrorModel::Shape { expected: "an RFC 7095 jCard"@ }),
    }
}

/// Scanning for a version-named property skips every position known not to
/// match.
proof fn lemma_version_scan_skip(props: Seq<PropertyModel>, i: int, j: int)
    requires
        0 <= i <= j <= props.len(),
        forall|k: int| i <= k < j ==> !is_version_name(#[trigger] props[k].name),
    ensures
        first_version_index_from(props, i) == first_version_index_from(props, j),
    decreases j - i,
{
    if i < j {
        lemma_version_scan_skip(props, i + 1, j);
    }
}

/// Whether a property name equals `version` without regard to ASCII letter
/// case.
fn name_is_version(name: &str) -> (b: bool)
    ensures
        b == is_version_name(name@),
{
    if name.unicode_len() != 7 {
        return false;
    }
    let c0 = name.get_char(0);
    let c1 = name.get_char(1);
    let c2 = name.get_char(2);
    let c3 = name.get_char(3);
    let c4 = name.get_char(4);
    let c5 = name.get_char(5);
    let c6 = name.get_char(6);
    (c0 == 'v' || c0 == 'V') && (c1 == 'e' || c1 == 'E') && (c2 == 'r' || c2 == 'R') && (c3 == 's'
        || c3 == 'S') && (c4 == 'i' || c4 == 'I') && (c5 == 'o' || c5 == 'O') && (c6 == 'n' || c6
        == 'N')
}

impl PropertyValue {
    /// Decodes one value slot, by the rules of [`dec_value`].
    #[verifier::loop_isolation(false)]
    pub fn decode(j: &Json) -> (r: Result<PropertyValue, JCardError>)
        ensures
            value_result_model(r) == dec_value(j@),
        decreases j,
    {
        match j {
            Json::Str(s) => Ok(PropertyValue::String(s.clone())),
            Json::Bool(b) => Ok(PropertyValue::Bool(*b)),
            Json::Int(i) => Ok(PropertyValue::Integer(*i)),
            Json::Float(bits) => Ok(PropertyValue::Float(*bits)),
            Json::Arr(elems) => {
                let ghost models = crate::json::vec_elems_model(elems);
                proof {
                    assert(j@ == JsonModel::Arr(models));
                }
                let mut values: Vec<PropertyValue> = Vec::new();
                let mut i: usize = 0;
                while i < elems.len()
                    invariant
                        0 <= i <= elems.len(),
                        dec_values_from(models, 0) == (match dec_values_from(models, i as int) {
                            Ok(rest) => Ok::<_, ErrorModel>(vec_values_model(&values) + rest),
                            Err(e) => Err(e),
                        }),
                    decreases elems.len() - i,
                {
                    let ghost prev = values@;
                    match PropertyValue::decode(&elems[i]) {
                        Ok(v) => {
                            let ghost vm = v@;
                            proof {
                                assert(models[i as int] == elems@[i as int]@);
                            }
                            values.push(v);
                            proof {
                                assert(vec_values_model(&values) =~= crate::model::values_model(
                                    prev,
                                ).push(vm));
                                if dec_values_from(models, i + 1 as int) is Ok {
                                    let rest = dec_values_from(models, i + 1 as int)->Ok_0;
                                    assert((crate::model::values_model(prev) + (seq![vm] + rest))
                                        =~= (vec_values_model(&values) + rest));
                                }
                            }
                        },
                        Err(e) => {
                            return Err(e);
                        },
                    }
                    i = i + 1;
                }
                proof {
                    assert(vec_values_model(&values) + Seq::<ValueModel>::empty()
                        =~= vec_values_model(&values));
                }
                Ok(PropertyValue::Structured(values))
            },
            Json::Obj(_) => Err(
                JCardError::Shape {
                    expected: "a string, boolean, number, or array value".to_owned(),
                },
            ),
            Json::Null => Err(
                JCardError::Shape {
                    expected: "a string, boolean, number, or array value".to_owned(),
                },
            ),
        }
    }
}

impl Parameters {
    /// Decodes the members of a JSON parameter object, by the rules of
    /// [`dec_params`].
    #[verifier::loop_isolation(false)]
    pub fn decode(members: &Vec<(String, Json)>) -> (r: Result<Parameters, JCardError>)
        ensures
            params_result_model(r) == dec_params(crate::json::vec_members_model(members)),
    {
        let ghost ms = crate::json::vec_members_model(members);
        let mut params = Parameters::new();
        let mut i: usize = 0;
        while i < members.len()
            invariant
                0 <= i <= members.len(),
                dec_params(ms) == dec_params_from(ms, i as int, params@),
            decreases members.len() - i,
        {
            proof {
                assert(ms[i as int] == (members@[i as int].0@, members@[i as int].1@));
            }
            let value = &members[i].1;
            let decoded: Vec<String> = match value {
                Json::Str(s) => {
                    let ghost sm = s@;
                    let one = vec![s.clone()];
                    proof {
                        assert(one.deep_view() =~= seq![sm]);
                    }
                    one
                },
                Json::Arr(elems) => {
                    let ghost inner = crate::json::vec_elems_model(elems);
                    proof {
                        assert(value@ == JsonModel::Arr(inner));
                    }
                    let mut strings: Vec<String> = Vec::new();
                    let mut k: usize = 0;
                    while k < elems.len()
                        invariant
                            0 <= k <= elems.len(),
                            strings@.len() == k,
                            forall|m: int| 0 <= m < k ==> (#[trigger] inner[m]) is Str
                                && strings.deep_view()[m] == inner[m]->Str_0,
                        decreases elems.len() - k,
                    {
                        proof {
                            assert(inner[k as int] == elems@[k as int]@);
                        }
                        match &elems[k] {
                            Json::Str(s) => {
                                strings.push(s.clone());
                            },
                            _ => {
                                proof {
                                    assert(!(inner[k as int] is Str));
                                }
                                return Err(
                                    JCardError::Shape {
                                        expected:
                                            "a map from string to one or multiple strings".to_owned(),
                                    },
                                );
                            },
                        }
                        k = k + 1;
                    }
                    proof {
                        assert(strings.deep_view() =~= Seq::new(
                            inner.len(),
                            |m: int| inner[m]->Str_0,
                        ));
                    }
                    strings
                },
                _ => {
                    return Err(
                        JCardError::Shape {
                            expected: "a map from string to one or multiple strings".to_owned(),
                        },
                    );
                },
            };
            proof {
                assert(dec_param_value(ms[i as int].1) == Ok::<_, ErrorModel>(
                    decoded.deep_view(),
                ));
            }
            let key = members[i].0.clone();
            params.insert(key, decoded);
            i = i + 1;
        }
        Ok(params)
    }
}

impl Property {
    /// Decodes one property array, by the rules of [`dec_property`].
    #[verifier::loop_isolation(false)]
    pub fn decode(j: &Json) -> (r: Result<Property, JCardError>)
        ensures
            property_result_model(r) == dec_property(j@),
    {
        let elems = match j {
            Json::Arr(elems) => elems,
            _ => {
                return Err(
                    JCardError::Shape { expected: "an RFC 7095 jCard property".to_owned() },
                );
            },
        };
        let ghost models = crate::json::vec_elems_model(elems);
        proof {
            assert(j@ == JsonModel::Arr(models));
        }
        let slot_expected = "an array of at least 4 elements";
        if elems.len() < 1 {
            return Err(JCardError::Length { index: 0, expected: slot_expected.to_owned() });
        }
        let name = match &elems[0] {
            Json::Str(s) => s.clone(),
            _ => {
                return Err(JCardError::Length { index: 0, expected: slot_expected.to_owned() });
            },
        };
        if elems.len() < 2 {
            return Err(JCardError::Length { index: 1, expected: slot_expected.to_owned() });
        }
        let parameters = match &elems[1] {
            Json::Obj(members) => {
                proof {
                    assert(models[1] == JsonModel::Obj(crate::json::vec_members_model(members)));
                }
                match Parameters::decode(members) {
                    Ok(p) => p,
                    Err(e) => {
                        return Err(e);
                    },
                }
            },
            _ => {
                return Err(JCardError::Length { index: 1, expected: slot_expected.to_owned() });
            },
        };
        if elems.len() < 3 {
            return Err(JCardError::Length { index: 2, expected: slot_expected.to_owned() });
        }
        let value_type = match &elems[2] {
            Json::Str(s) => s.clone(),
            _ => {
                return Err(JCardError::Length { index: 2, expected: slot_expected.to_owned() });
            },
        };
        let mut values: Vec<PropertyValue> = Vec::with_capacity(elems.len().saturating_sub(3));
        let mut i: usize = 3;
        while i < elems.len()
            invariant
                3 <= i <= elems.len() || (elems.len() < 3 && i == 3),
                dec_values_from(models, 3) == (match dec_values_from(models, i as int) {
                    Ok(rest) => Ok::<_, ErrorModel>(vec_values_model(&values) + rest),
                    Err(e) => Err(e),
                }),
            decreases elems.len() - i,
        {
            let ghost prev = values@;
            match PropertyValue::decode(&elems[i]) {
                Ok(v) => {
                    let ghost vm = v@;
                    proof {
                        assert(models[i as int] == elems@[i as int]@);
                    }
                    values.push(v);
                    proof {
                        assert(vec_values_model(&values) =~= crate::model::values_model(
                            prev,
                        ).push(vm));
                        if dec_values_from(models, i + 1 as int) is Ok {
                            let rest = dec_values_from(models, i + 1 as int)->Ok_0;
                            assert((crate::model::values_model(prev) + (seq![vm] + rest)) =~= (
                            vec_values_model(&values) + rest));
                        }
                    }
                },
                Err(e) => {
                    return Err(e);
                },
            }
            i = i + 1;
        }
        proof {
            assert(vec_values_model(&values) + Seq::<ValueModel>::empty() =~= vec_values_model(
                &values,
            ));
        }
        if values.len() == 0 {
            return Err(
                JCardError::Empty { what: "at least one value of the jCard property".to_owned() },
            );
        }
        Ok(Property { name, parameters, value_type, values })
    }
}

/// The position of the first version-named property, if any.
#[verifier::loop_isolation(false)]
fn find_version_index(props: &Vec<Property>) -> (r: Option<usize>)
    ensures
        (match r {
            Some(i) => 0 <= i < props@.len() && first_version_index_from(
                props_model(props@),
                0,
            ) == Some(i as int),
            None => first_version_index_from(props_model(props@), 0) is None,
        }),
{
    let ghost models = props_model(props@);
    let mut i: usize = 0;
    while i < props.len()
        invariant
            0 <= i <= props.len(),
            forall|k: int| 0 <= k < i ==> !is_version_name(#[trigger] models[k].name),
        decreases props.len() - i,
    {
        proof {
            assert(models[i as int] == props@[i as int]@);
        }
        if name_is_version(props[i].name.as_str()) {
            proof {
                lemma_version_scan_skip(models, 0, i as int);
            }
            return Some(i);
        }
        i = i + 1;
    }
    proof {
        lemma_version_scan_skip(models, 0, props@.len() as int);
    }
    None
}

impl Vcard {
    /// Decodes a whole jCard document, by the rules of [`dec_vcard`].
    #[verifier::loop_isolation(false)]
    pub fn decode(j: &Json) -> (r: Result<Vcard, JCardError>)
        ensures
            vcard_result_model(r) == dec_vcard(j@),
    {
        let elems = match j {
            Json::Arr(elems) => elems,
            _ => {
                return Err(JCardError::Shape { expected: "an RFC 7095 jCard".to_owned() });
            },
        };
        let ghost models = crate::json::vec_elems_model(elems);
        proof {
            assert(j@ == JsonModel::Arr(models));
        }
        if elems.len() == 0 {
            return Err(
                JCardError::Length {
                    index: 0,
                    expected: "a non-empty array starting with a \"vcard\" header".to_owned(),
                },
            );
        }
        match &elems[0] {
            Json::Str(header) => {
                if !(*header == "vcard".to_owned()) {
                    return Err(
                        JCardError::Value { expected: "a \"vcard\" header string".to_owned() },
                    );
                }
            },
            _ => {
                return Err(
                    JCardError::Value { expected: "a \"vcard\" header string".to_owned() },
                );
            },
        }
        if elems.len() < 2 {
            return Err(
                JCardError::Value {
                    expected: "an array of jCard properties as the second element".to_owned(),
                },
            );
        }
        let items = match &elems[1] {
            Json::Arr(items) => items,
            _ => {
                return Err(
                    JCardError::Value {
                        expected: "an array of jCard properties as the second element".to_owned(),
                    },
                );
            },
        };
        let ghost pmodels = crate::json::vec_elems_model(items);
        proof {
            assert(models[1] == JsonModel::Arr(pmodels));
        }
        let mut props: Vec<Property> = Vec::new();
        let mut i: usize = 0;
        while i < items.len()
            invariant
                0 <= i <= items.len(),
                dec_properties_from(pmodels, 0) == (match dec_properties_from(pmodels, i as int) {
                    Ok(rest) => Ok::<_, ErrorModel>(props_model(props@) + rest),
                    Err(e) => Err(e),
                }),
            decreases items.len() - i,
        {
            let ghost prev = props@;
            match Property::decode(&items[i]) {
                Ok(p) => {
                    let ghost pm = p@;
                    proof {
                        assert(pmodels[i as int] == items@[i as int]@);
                    }
                    props.push(p);
                    proof {
                        assert(props_model(props@) =~= props_model(prev).push(pm));
                        if dec_properties_from(pmodels, i + 1 as int) is Ok {
                            let rest = dec_properties_from(pmodels, i + 1 as int)->Ok_0;
                            assert((props_model(prev) + (seq![pm] + rest)) =~= (props_model(
                                props@,
                            ) + rest));
                        }
                    }
                },
                Err(e) => {
                    return Err(e);
                },
            }
            i = i + 1;
        }
        proof {
            assert(props_model(props@) + Seq::<PropertyModel>::empty() =~= props_model(props@));
        }
        let version_index = find_version_index(&props);
        let vi = match version_index {
            None => {
                return Ok(Vcard { version: String::new(), properties: props });
            },
            Some(vi) => vi,
        };
        let ghost pm = props_model(props@)[vi as int];
        proof {
            assert(pm == props@[vi as int]@);
        }
        let version: String = {
            let p = &props[vi];
            if p.values.len() != 1 {
                return Err(
                    JCardError::Length {
                        index: p.values.len(),
                        expected: "exactly one value in the jCard version property".to_owned(),
                    },
                );
            }
            match &p.values[0] {
                PropertyValue::Structured(inner) => {
                    proof {
                        assert(pm.values[0] == p.values@[0]@);
                    }
                    if inner.len() == 1 {
                        match &inner[0] {
                            PropertyValue::String(s) => {
                                proof {
                                    assert(vec_values_model(inner)[0] == inner@[0]@);
                                }
                                s.clone()
                            },
                            _ => {
                                proof {
                                    assert(vec_values_model(inner)[0] == inner@[0]@);
                                }
                                return Err(
                                    JCardError::Shape {
                                        expected: "a string version property".to_owned(),
                                    },
                                );
                            },
                        }
                    } else {
                        proof {
                            assert(pm.values[0]->Structured_0 == vec_values_model(inner));
                            assert(vec_values_model(inner).len() == inner@.len());
                        }
                        return Err(
                            JCardError::Length {
                                index: 1,
                                expected: "a non-structured version property".to_owned(),
                            },
                        );
                    }
                },
                PropertyValue::String(s) => {
                    proof {
                        assert(pm.values[0] == p.values@[0]@);
                    }
                    s.clone()
                },
                _ => {
                    proof {
                        assert(pm.values[0] == p.values@[0]@);
                    }
                    return Err(
                        JCardError::Shape { expected: "a string version property".to_owned() },
                    );
                },
            }
        };
        let ghost before_remove = props@;
        let mut props = props;
        props.remove(vi);
        proof {
            assert(props_model(props@) =~= props_model(before_remove).remove(vi as int));
        }
        Ok(Vcard { version, properties: props })
    }
}

} // verus!
