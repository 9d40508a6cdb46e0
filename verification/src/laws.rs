//! Global guarantees of the codec, proved from the contracts of the encoder
//! and the decoder.
//!
//! The main statement is the round trip: a card that the encoder accepts is
//! decoded back from its own encoding unchanged.  The encoder accepts a card
//! whose properties all have at least one value, whose structured values all
//! have at least two elements, and whose parameter entries all have at least
//! one value; the round trip additionally needs parameter names within one
//! property not to repeat (the decoder collapses repeated names) and
//! structured values not to have exactly one element (the encoder flattens
//! those by design, so their decoding is the flattened value).

use vstd::prelude::*;

use crate::de::dec_param_value;
use crate::de::dec_params;
use crate::de::dec_params_from;
use crate::de::dec_properties_from;
use crate::de::dec_property;
use crate::de::dec_value;
use crate::de::dec_values_from;
use crate::de::dec_vcard;
use crate::de::extract_version;
use crate::de::first_version_index_from;
use crate::de::is_version_name;
use crate::error::ErrorModel;
use crate::json::JsonModel;
use crate::model::PropertyModel;
use crate::model::ValueModel;
use crate::model::VcardModel;
use crate::params::first_key_index_from;
use crate::params::params_upsert;
use crate::params::ParamsModel;
use crate::ser::enc_param_values;
use crate::ser::enc_params;
use crate::ser::enc_params_from;
use crate::ser::enc_properties_from;
use crate::ser::enc_property;
use crate::ser::enc_value;
use crate::ser::enc_values_from;
use crate::ser::enc_vcard;
use crate::ser::version_property_model;

verus! {

broadcast use vstd::seq::group_seq_axioms;

/// Whether a value is decoded back from its own encoding unchanged: its
/// structured sequences all have two or more elements.  One with none cannot
/// be encoded; one with exactly one is flattened by the encoder, so it is
/// decoded back as its single element.
pub open spec fn round_trippable_value(v: ValueModel) -> bool
    decreases v, 0nat,
{
    match v {
        ValueModel::Structured(vs) => vs.len() >= 2 && round_trippable_values(vs, 0),
        _ => true,
    }
}

/// Whether every value from position `i` on is decoded back unchanged.
pub open spec fn round_trippable_values(vs: Seq<ValueModel>, i: int) -> bool
    decreases vs, vs.len() - i,
{
    i < 0 || i >= vs.len() || (round_trippable_value(vs[i]) && round_trippable_values(vs, i + 1))
}

/// Whether a parameter map is decoded back from its own encoding unchanged:
/// every entry has at least one value (none can be encoded otherwise) and no
/// name repeats (the decoder collapses repeated names).
pub open spec fn round_trippable_params(entries: ParamsModel) -> bool {
    &&& forall|i: int| 0 <= i < entries.len() ==> (#[trigger] entries[i]).1.len() >= 1
    &&& forall|i: int, j: int|
        0 <= i < j < entries.len() ==> (#[trigger] entries[i]).0 != (#[trigger] entries[j]).0
}

/// Whether a property is decoded back from its own encoding unchanged.
pub open spec fn round_trippable_property(p: PropertyModel) -> bool {
    &&& p.values.len() >= 1
    &&& round_trippable_values(p.values, 0)
    &&& round_trippable_params(p.params)
}

/// Whether a whole card is decoded back from its own encoding unchanged.
pub open spec fn round_trippable(v: VcardModel) -> bool {
    forall|i: int|
        0 <= i < v.properties.len() ==> round_trippable_property(#[trigger] v.properties[i])
}

/// A property without values cannot be encoded, and no decoded property is
/// without values: neither direction of the codec ever passes an empty value
/// sequence.
pub proof fn lemma_empty_values_rejected(p: PropertyModel, j: JsonModel)
    ensures
        p.values.len() == 0 ==> enc_property(p) is Err,
        dec_property(j) matches Ok(q) ==> q.values.len() >= 1,
{
}

/// Whether a value can be encoded at all: its structured sequences all have
/// at least one element.  Weaker than [`round_trippable_value`], which also
/// rules out the one-element sequences the encoder flattens.
pub open spec fn encodable_value(v: ValueModel) -> bool
    decreases v, 0nat,
{
    match v {
        ValueModel::Structured(vs) => vs.len() >= 1 && encodable_values(vs, 0),
        _ => true,
    }
}

/// Whether every value from position `i` on can be encoded.
pub open spec fn encodable_values(vs: Seq<ValueModel>, i: int) -> bool
    decreases vs, vs.len() - i,
{
    i < 0 || i >= vs.len() || (encodable_value(vs[i]) && encodable_values(vs, i + 1))
}

/// Whether a parameter map can be encoded: every entry has at least one
/// value.
pub open spec fn encodable_params(entries: ParamsModel) -> bool {
    forall|i: int| 0 <= i < entries.len() ==> (#[trigger] entries[i]).1.len() >= 1
}

/// Whether a property can be encoded: it has at least one value, and its
/// values and parameters can be encoded.
pub open spec fn encodable_property(p: PropertyModel) -> bool {
    &&& p.values.len() >= 1
    &&& encodable_values(p.values, 0)
    &&& encodable_params(p.params)
}

/// Whether a whole card can be encoded: every property can be.
pub open spec fn encodable(v: VcardModel) -> bool {
    forall|i: int| 0 <= i < v.properties.len() ==> encodable_property(#[trigger] v.properties[i])
}

/// Encoding a value succeeds exactly when the value is encodable.
proof fn lemma_enc_value_ok_iff(v: ValueModel)
    ensures
        enc_value(v) is Ok <==> encodable_value(v),
    decreases v, 0nat,
{
    match v {
        ValueModel::Structured(vs) => {
            lemma_enc_values_ok_iff(vs, 0);
        },
        _ => {},
    }
}

/// Encoding the values from position `i` on succeeds exactly when they are
/// all encodable.
proof fn lemma_enc_values_ok_iff(vs: Seq<ValueModel>, i: int)
    requires
        0 <= i <= vs.len(),
    ensures
        enc_values_from(vs, i) is Ok <==> encodable_values(vs, i),
    decreases vs, vs.len() - i,
{
    if i < vs.len() {
        lemma_enc_value_ok_iff(vs[i]);
        lemma_enc_values_ok_iff(vs, i + 1);
    }
}

/// Encoding the parameter entries from position `i` on succeeds exactly
/// when none of them is empty.
proof fn lemma_enc_params_ok_iff(entries: ParamsModel, i: int)
    requires
        0 <= i <= entries.len(),
    ensures
        enc_params_from(entries, i) is Ok <==> (forall|k: int|
            i <= k < entries.len() ==> (#[trigger] entries[k]).1.len() >= 1),
    decreases entries.len() - i,
{
    if i < entries.len() {
        lemma_enc_params_ok_iff(entries, i + 1);
    }
}

/// Encoding a property succeeds exactly when the property is encodable: it
/// has at least one value, no structured value anywhere in it is empty, and
/// no parameter entry is empty.
pub proof fn lemma_enc_property_ok_iff(p: PropertyModel)
    ensures
        enc_property(p) is Ok <==> encodable_property(p),
{
    lemma_enc_params_ok_iff(p.params, 0);
    if p.values.len() >= 1 {
        lemma_enc_values_ok_iff(p.values, 0);
    }
}

/// Encoding the properties from position `i` on succeeds exactly when they
/// are all encodable.
proof fn lemma_enc_properties_ok_iff(props: Seq<PropertyModel>, i: int)
    requires
        0 <= i <= props.len(),
    ensures
        enc_properties_from(props, i) is Ok <==> (forall|k: int|
            i <= k < props.len() ==> encodable_property(#[trigger] props[k])),
    decreases props.len() - i,
{
    if i < props.len() {
        lemma_enc_property_ok_iff(props[i]);
        lemma_enc_properties_ok_iff(props, i + 1);
    }
}

/// Encoding a card succeeds exactly when the card is encodable; the
/// synthesized version property never stands in the way.
pub proof fn lemma_encode_succeeds_iff(v: VcardModel)
    ensures
        enc_vcard(v) is Ok <==> encodable(v),
{
    let vp = version_property_model(v.version);
    assert(encodable_property(vp)) by {
        assert(encodable_values(vp.values, 1));
        assert(encodable_value(vp.values[0]));
        assert(encodable_values(vp.values, 0));
    }
    lemma_enc_property_ok_iff(vp);
    lemma_enc_properties_ok_iff(v.properties, 0);
}

/// Encoding a round-trippable value succeeds.
proof fn lemma_enc_value_ok(v: ValueModel)
    requires
        round_trippable_value(v),
    ensures
        enc_value(v) is Ok,
    decreases v, 0nat,
{
    match v {
        ValueModel::Structured(vs) => {
            lemma_enc_values_ok(vs, 0);
        },
        _ => {},
    }
}

/// Encoding round-trippable values from position `i` on succeeds and yields
/// one JSON node per value.
proof fn lemma_enc_values_ok(vs: Seq<ValueModel>, i: int)
    requires
        0 <= i <= vs.len(),
        round_trippable_values(vs, i),
    ensures
        enc_values_from(vs, i) is Ok,
        enc_values_from(vs, i)->Ok_0.len() == vs.len() - i,
    decreases vs, vs.len() - i,
{
    if i < vs.len() {
        lemma_enc_value_ok(vs[i]);
        lemma_enc_values_ok(vs, i + 1);
    }
}

/// A round-trippable value is decoded back from its encoding unchanged.
proof fn lemma_dec_of_enc_value(v: ValueModel)
    requires
        round_trippable_value(v),
    ensures
        enc_value(v) is Ok,
        dec_value(enc_value(v)->Ok_0) == Ok::<ValueModel, ErrorModel>(v),
    decreases v, 0nat,
{
    lemma_enc_value_ok(v);
    match v {
        ValueModel::Structured(vs) => {
            lemma_enc_values_ok(vs, 0);
            let elems = enc_values_from(vs, 0)->Ok_0;
            assert(enc_value(v)->Ok_0 == JsonModel::Arr(elems));
            assert(elems.subrange(0, elems.len() as int) =~= elems);
            lemma_dec_of_enc_values(vs, elems, 0, 0);
            assert(vs.subrange(0, vs.len() as int) =~= vs);
        },
        _ => {},
    }
}

/// Values encoded from position `i` on, placed at position `k` of a JSON
/// array, are decoded back from that position unchanged.
proof fn lemma_dec_of_enc_values(vs: Seq<ValueModel>, s: Seq<JsonModel>, i: int, k: int)
    requires
        0 <= i <= vs.len(),
        0 <= k <= s.len(),
        s.len() - k == vs.len() - i,
        round_trippable_values(vs, i),
        enc_values_from(vs, i) == Ok::<_, ErrorModel>(s.subrange(k, s.len() as int)),
    ensures
        dec_values_from(s, k) == Ok::<_, ErrorModel>(vs.subrange(i, vs.len() as int)),
    decreases vs, vs.len() - i,
{
    if i == vs.len() {
        assert(vs.subrange(i, vs.len() as int) =~= Seq::<ValueModel>::empty());
    } else {
        lemma_enc_value_ok(vs[i]);
        lemma_enc_values_ok(vs, i + 1);
        let e = enc_value(vs[i])->Ok_0;
        let rest = enc_values_from(vs, i + 1)->Ok_0;
        assert(s.subrange(k, s.len() as int) == seq![e] + rest);
        assert(s[k] == (seq![e] + rest)[0]);
        assert(s[k] == e);
        assert(s.subrange(k + 1, s.len() as int) =~= (seq![e] + rest).subrange(
            1,
            (seq![e] + rest).len() as int,
        ));
        assert(s.subrange(k + 1, s.len() as int) =~= rest);
        lemma_dec_of_enc_value(vs[i]);
        lemma_dec_of_enc_values(vs, s, i + 1, k + 1);
        assert(dec_values_from(s, k) == Ok::<_, ErrorModel>(
            seq![vs[i]] + vs.subrange(i + 1, vs.len() as int),
        ));
        assert(seq![vs[i]] + vs.subrange(i + 1, vs.len() as int) =~= vs.subrange(
            i,
            vs.len() as int,
        ));
    }
}

/// One parameter entry's values are decoded back from their encoding
/// unchanged.
proof fn lemma_param_value_round_trip(values: Seq<Seq<char>>)
    requires
        values.len() >= 1,
    ensures
        enc_param_values(values) is Ok,
        dec_param_value(enc_param_values(values)->Ok_0) == Ok::<_, ErrorModel>(values),
{
    if values.len() == 1 {
        assert(seq![values[0]] =~= values);
    } else {
        let elems = Seq::new(values.len(), |i: int| JsonModel::Str(values[i]));
        assert(forall|k: int| 0 <= k < elems.len() ==> (#[trigger] elems[k]) is Str);
        assert(Seq::new(elems.len(), |k: int| elems[k]->Str_0) =~= values);
    }
}

/// Encoding round-trippable parameters from position `i` on succeeds and
/// yields members that carry the names in order and decode back to the
/// entries' values.
proof fn lemma_enc_params_ok(entries: ParamsModel, i: int)
    requires
        0 <= i <= entries.len(),
        round_trippable_params(entries),
    ensures
        enc_params_from(entries, i) is Ok,
        enc_params_from(entries, i)->Ok_0.len() == entries.len() - i,
    decreases entries.len() - i,
{
    if i < entries.len() {
        lemma_param_value_round_trip(entries[i].1);
        lemma_enc_params_ok(entries, i + 1);
    }
}

/// No scan for `key` finds it in a sequence without it.
proof fn lemma_first_key_index_none(s: ParamsModel, key: Seq<char>, j: int)
    requires
        0 <= j <= s.len(),
        forall|m: int| 0 <= m < s.len() ==> (#[trigger] s[m]).0 != key,
    ensures
        first_key_index_from(s, key, j) is None,
    decreases s.len() - j,
{
    if j < s.len() {
        lemma_first_key_index_none(s, key, j + 1);
    }
}

/// Parameter entries encoded from position `i` on, placed at position `k`
/// of the member list, are decoded back on top of the entries before `i`
/// to yield the whole map unchanged.
proof fn lemma_dec_of_enc_params(
    entries: ParamsModel,
    ms: Seq<(Seq<char>, JsonModel)>,
    i: int,
    k: int,
)
    requires
        0 <= i <= entries.len(),
        0 <= k <= ms.len(),
        ms.len() - k == entries.len() - i,
        round_trippable_params(entries),
        enc_params_from(entries, i) == Ok::<_, ErrorModel>(ms.subrange(k, ms.len() as int)),
    ensures
        dec_params_from(ms, k, entries.subrange(0, i)) == Ok::<_, ErrorModel>(entries),
    decreases entries.len() - i,
{
    if i == entries.len() {
        assert(entries.subrange(0, i) =~= entries);
    } else {
        lemma_param_value_round_trip(entries[i].1);
        lemma_enc_params_ok(entries, i + 1);
        let j = enc_param_values(entries[i].1)->Ok_0;
        let rest = enc_params_from(entries, i + 1)->Ok_0;
        assert(ms.subrange(k, ms.len() as int) == seq![(entries[i].0, j)] + rest);
        assert(ms[k] == (seq![(entries[i].0, j)] + rest)[0]);
        assert(ms[k] == (entries[i].0, j));
        assert(ms.subrange(k + 1, ms.len() as int) =~= (seq![(entries[i].0, j)]
            + rest).subrange(1, (seq![(entries[i].0, j)] + rest).len() as int));
        assert(ms.subrange(k + 1, ms.len() as int) =~= rest);
        let acc = entries.subrange(0, i);
        assert(forall|m: int| 0 <= m < acc.len() ==> (#[trigger] acc[m]).0 != entries[i].0) by {
            assert(forall|m: int| 0 <= m < acc.len() ==> acc[m] == (#[trigger] entries[m]));
        }
        lemma_first_key_index_none(acc, entries[i].0, 0);
        assert(params_upsert(acc, entries[i].0, entries[i].1) == acc.push(
            (entries[i].0, entries[i].1),
        ));
        assert(acc.push((entries[i].0, entries[i].1)) =~= entries.subrange(0, i + 1)) by {
            assert(entries[i] == (entries[i].0, entries[i].1));
        }
        lemma_dec_of_enc_params(entries, ms, i + 1, k + 1);
    }
}

/// A round-trippable parameter map is decoded back from its encoding
/// unchanged.
proof fn lemma_params_round_trip(entries: ParamsModel)
    requires
        round_trippable_params(entries),
    ensures
        enc_params(entries) is Ok,
        enc_params(entries)->Ok_0 is Obj,
        dec_params(enc_params(entries)->Ok_0->Obj_0) == Ok::<_, ErrorModel>(entries),
{
    lemma_enc_params_ok(entries, 0);
    let ms = enc_params_from(entries, 0)->Ok_0;
    assert(ms.subrange(0, ms.len() as int) =~= ms);
    lemma_dec_of_enc_params(entries, ms, 0, 0);
    assert(entries.subrange(0, 0) =~= Seq::<(Seq<char>, Seq<Seq<char>>)>::empty());
}

/// A round-trippable property is decoded back from its encoding unchanged.
proof fn lemma_property_round_trip(p: PropertyModel)
    requires
        round_trippable_property(p),
    ensures
        enc_property(p) is Ok,
        dec_property(enc_property(p)->Ok_0) == Ok::<PropertyModel, ErrorModel>(p),
{
    lemma_params_round_trip(p.params);
    lemma_enc_values_ok(p.values, 0);
    let params_json = enc_params(p.params)->Ok_0;
    let vals = enc_values_from(p.values, 0)->Ok_0;
    let fixed = seq![JsonModel::Str(p.name), params_json, JsonModel::Str(p.value_type)];
    let s = fixed + vals;
    assert(enc_property(p)->Ok_0 == JsonModel::Arr(s));
    assert(s.len() == 3 + p.values.len());
    assert(s[0] == JsonModel::Str(p.name));
    assert(s[1] == params_json);
    assert(s[2] == JsonModel::Str(p.value_type));
    assert(s.subrange(3, s.len() as int) =~= vals);
    lemma_dec_of_enc_values(p.values, s, 0, 3);
    assert(p.values.subrange(0, p.values.len() as int) =~= p.values);
    assert(dec_property(JsonModel::Arr(s)) == Ok::<PropertyModel, ErrorModel>(
        PropertyModel {
            name: p.name,
            params: p.params,
            value_type: p.value_type,
            values: p.values,
        },
    ));
    assert((PropertyModel {
        name: p.name,
        params: p.params,
        value_type: p.value_type,
        values: p.values,
    }) == p);
}

/// Encoding round-trippable properties from position `i` on succeeds and
/// yields one property array per property.
proof fn lemma_enc_properties_ok(props: Seq<PropertyModel>, i: int)
    requires
        0 <= i <= props.len(),
        forall|m: int| 0 <= m < props.len() ==> round_trippable_property(#[trigger] props[m]),
    ensures
        enc_properties_from(props, i) is Ok,
        enc_properties_from(props, i)->Ok_0.len() == props.len() - i,
    decreases props.len() - i,
{
    if i < props.len() {
        lemma_property_round_trip(props[i]);
        lemma_enc_properties_ok(props, i + 1);
    }
}

/// Properties encoded from position `i` on, placed at position `k` of the
/// property list, are decoded back from that position unchanged.
proof fn lemma_dec_of_enc_properties(
    props: Seq<PropertyModel>,
    s: Seq<JsonModel>,
    i: int,
    k: int,
)
    requires
        0 <= i <= props.len(),
        0 <= k <= s.len(),
        s.len() - k == props.len() - i,
        forall|m: int| 0 <= m < props.len() ==> round_trippable_property(#[trigger] props[m]),
        enc_properties_from(props, i) == Ok::<_, ErrorModel>(s.subrange(k, s.len() as int)),
    ensures
        dec_properties_from(s, k) == Ok::<_, ErrorModel>(props.subrange(i, props.len() as int)),
    decreases props.len() - i,
{
    if i == props.len() {
        assert(props.subrange(i, props.len() as int) =~= Seq::<PropertyModel>::empty());
    } else {
        lemma_property_round_trip(props[i]);
        lemma_enc_properties_ok(props, i + 1);
        let e = enc_property(props[i])->Ok_0;
        let rest = enc_properties_from(props, i + 1)->Ok_0;
        assert(s.subrange(k, s.len() as int) == seq![e] + rest);
        assert(s[k] == (seq![e] + rest)[0]);
        assert(s[k] == e);
        assert(s.subrange(k + 1, s.len() as int) =~= (seq![e] + rest).subrange(
            1,
            (seq![e] + rest).len() as int,
        ));
        assert(s.subrange(k + 1, s.len() as int) =~= rest);
        lemma_dec_of_enc_properties(props, s, i + 1, k + 1);
        assert(dec_properties_from(s, k) == Ok::<_, ErrorModel>(
            seq![props[i]] + props.subrange(i + 1, props.len() as int),
        ));
        assert(seq![props[i]] + props.subrange(i + 1, props.len() as int) =~= props.subrange(
            i,
            props.len() as int,
        ));
    }
}

/// The round trip: a round-trippable card is encoded successfully, and
/// decoding that encoding yields the card back unchanged.  In particular the
/// synthesized version property is extracted again, so the version string
/// and the property list both survive.
pub proof fn lemma_round_trip(v: VcardModel)
    requires
        round_trippable(v),
    ensures
        enc_vcard(v) is Ok,
        dec_vcard(enc_vcard(v)->Ok_0) == Ok::<VcardModel, ErrorModel>(v),
{
    let vp = version_property_model(v.version);
    assert(round_trippable_property(vp)) by {
        assert(round_trippable_values(vp.values, 1));
        assert(round_trippable_value(vp.values[0]));
        assert(round_trippable_values(vp.values, 0));
    }
    lemma_property_round_trip(vp);
    lemma_enc_properties_ok(v.properties, 0);
    let vj = enc_property(vp)->Ok_0;
    let pjs = enc_properties_from(v.properties, 0)->Ok_0;
    let list = seq![vj] + pjs;
    let top = seq![JsonModel::Str("vcard"@), JsonModel::Arr(list)];
    assert(enc_vcard(v)->Ok_0 == JsonModel::Arr(top));

    // The decoder sees the header and the property list.
    assert(top[0] == JsonModel::Str("vcard"@));
    assert(top[1] == JsonModel::Arr(list));

    // Every entry of the encoded list decodes back: the version property
    // first, then the card's own properties.
    assert(list[0] == vj);
    assert(list.subrange(1, list.len() as int) =~= pjs);
    lemma_dec_of_enc_properties(v.properties, list, 0, 1);
    assert(v.properties.subrange(0, v.properties.len() as int) =~= v.properties);
    let decoded = seq![vp] + v.properties;
    assert(dec_properties_from(list, 0) == Ok::<_, ErrorModel>(decoded));

    // The version scan finds the synthesized property at position 0 and
    // extracts the version string from its sole value.
    assert(decoded[0] == vp);
    assert(is_version_name(vp.name)) by {
        reveal_strlit("version");
    }
    assert(first_version_index_from(decoded, 0) == Some(0int));
    assert(vp.values[0] == ValueModel::Str(v.version));
    assert(extract_version(vp) == Ok::<_, ErrorModel>(v.version));

    // Removing it leaves exactly the original properties.
    assert(decoded.remove(0) =~= v.properties);
    assert((VcardModel { version: v.version, properties: decoded.remove(0) }) == v);
}

} // verus!
