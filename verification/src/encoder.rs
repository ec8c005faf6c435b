//! The signal encoder: from the fields of a signal to its payload.

use vstd::prelude::*;
use crate::document::{
    boolean_value, empty_object, has_name, insert, members_held, not_a_number_value,
    number_value, object_text, put, stringify, text_value, value_held, JsonModel, Member,
};
use crate::field::{views, Field, FieldValue, FieldView, Number, ValueView};

verus! {

/// How a payload stores a value: a number in canonical form, a boolean and
/// a text as they are.
pub open spec fn stored(value: ValueView) -> JsonModel {
    match value {
        ValueView::Float(number) => JsonModel::Number(number.canonical()),
        ValueView::Boolean(flag) => JsonModel::Boolean(flag),
        ValueView::Text(text) => JsonModel::Text(text),
    }
}

/// The value that an entry of a payload stands for, if it is a number, a
/// boolean or a text.
pub open spec fn read(stored: JsonModel) -> Option<ValueView> {
    match stored {
        JsonModel::Number(number) => Some(ValueView::Float(number)),
        JsonModel::Boolean(flag) => Some(ValueView::Boolean(flag)),
        JsonModel::Text(text) => Some(ValueView::Text(text)),
        _ => None,
    }
}

/// The entry that a field makes.
pub open spec fn member_of(field: FieldView) -> Member {
    Member { name: field.name, value: stored(field.value) }
}

/// The entries of the payload of `fields`: each field stored in turn under
/// its name.
pub open spec fn members_for(fields: Seq<FieldView>) -> Seq<Member>
    decreases fields.len(),
{
    if fields.len() == 0 {
        Seq::empty()
    } else {
        put(members_for(fields.drop_last()), fields.last().name, stored(fields.last().value))
    }
}

/// The payload of `fields`: the text of the object with their entries.
pub open spec fn payload_of(fields: Seq<FieldView>) -> Seq<char> {
    object_text(members_for(fields))
}

/// No two of the fields share a name.
pub open spec fn names_distinct(fields: Seq<FieldView>) -> bool {
    forall|i: int, j: int|
        0 <= i < j < fields.len() ==> (#[trigger] fields[i]).name != (#[trigger] fields[j]).name
}

/// The value that a decoder finds under `name`: that of the first entry
/// which goes by the name.
pub open spec fn lookup(members: Seq<Member>, name: Seq<char>) -> Option<JsonModel>
    decreases members.len(),
{
    if members.len() == 0 {
        None
    } else if members.first().name == name {
        Some(members.first().value)
    } else {
        lookup(members.drop_first(), name)
    }
}

/// What a decoder reads under `name`: the value of the entry, where there
/// is one and it is a number, a boolean or a text.
pub open spec fn decoded(members: Seq<Member>, name: Seq<char>) -> Option<ValueView> {
    match lookup(members, name) {
        Some(stored) => read(stored),
        None => None,
    }
}

/// Storing a value and reading it gives the value back, a number in its
/// canonical form.
pub proof fn lemma_read_inverts_stored(value: ValueView)
    ensures
        read(stored(value)) == Some(value.canonical()),
{
}

/// Fields with distinct names lose nothing when encoded: the payload has
/// exactly one entry for each field, in the order given.
pub proof fn lemma_distinct_names_keep_every_field(fields: Seq<FieldView>)
    requires
        names_distinct(fields),
    ensures
        members_for(fields) == fields.map_values(|field: FieldView| member_of(field)),
    decreases fields.len(),
{
    let members = fields.map_values(|field: FieldView| member_of(field));
    if fields.len() == 0 {
        assert(members_for(fields) =~= members);
    } else {
        let front = fields.drop_last();
        let last = fields.last();
        assert(names_distinct(front)) by {
            assert forall|a: int, b: int| 0 <= a < b < front.len() implies (
            #[trigger] front[a]).name != (#[trigger] front[b]).name by {
                assert(front[a] == fields[a]);
                assert(front[b] == fields[b]);
            }
        }
        lemma_distinct_names_keep_every_field(front);
        let kept = front.map_values(|field: FieldView| member_of(field));
        assert(!has_name(kept, last.name)) by {
            assert forall|k: int| 0 <= k < kept.len() implies (#[trigger] kept[k]).name
                != last.name by {
                assert(kept[k].name == fields[k].name);
                assert(last == fields[fields.len() - 1]);
            }
        }
        assert(members_for(fields) =~= members);
    }
}

/// Among entries with distinct names, looking up the name of the `i`-th
/// gives its value.
pub proof fn lemma_lookup_finds_member(members: Seq<Member>, i: int)
    requires
        forall|a: int, b: int|
            0 <= a < b < members.len() ==> (#[trigger] members[a]).name != (
            #[trigger] members[b]).name,
        0 <= i < members.len(),
    ensures
        lookup(members, members[i].name) == Some(members[i].value),
    decreases members.len(),
{
    if i > 0 {
        let rest = members.drop_first();
        assert(members[0].name != members[i].name);
        assert(rest[i - 1] == members[i]);
        assert forall|a: int, b: int| 0 <= a < b < rest.len() implies (#[trigger] rest[a]).name
            != (#[trigger] rest[b]).name by {
            assert(rest[a] == members[a + 1]);
            assert(rest[b] == members[b + 1]);
        }
        lemma_lookup_finds_member(rest, i - 1);
    }
}

/// What is encoded can be read back: where the names of the fields are
/// distinct, the payload has as many entries as there are fields, and a
/// decoder reads from them, under the name of each field, the value of that
/// field in canonical form, which is the very value that went in where that
/// was canonical.
pub proof fn lemma_decoding_gives_back_values(fields: Seq<FieldView>, i: int)
    requires
        names_distinct(fields),
        0 <= i < fields.len(),
    ensures
        members_for(fields).len() == fields.len(),
        decoded(members_for(fields), fields[i].name) == Some(fields[i].value.canonical()),
        fields[i].value.is_canonical() ==> decoded(members_for(fields), fields[i].name) == Some(
            fields[i].value,
        ),
{
    lemma_distinct_names_keep_every_field(fields);
    let members = fields.map_values(|field: FieldView| member_of(field));
    assert forall|a: int, b: int| 0 <= a < b < members.len() implies (#[trigger] members[a]).name
        != (#[trigger] members[b]).name by {
        assert(members[a].name == fields[a].name);
        assert(members[b].name == fields[b].name);
    }
    lemma_lookup_finds_member(members, i);
    lemma_read_inverts_stored(fields[i].value);
}

fn value_to_json(value: &FieldValue) -> (json: json::JsonValue)
    ensures
        value_held(json) == stored(value@),
{
    match value {
        FieldValue::Float(Number::Finite { positive, mantissa, exponent }) => number_value(
            *positive,
            *mantissa,
            *exponent,
        ),
        FieldValue::Float(Number::NotANumber) => not_a_number_value(),
        FieldValue::Boolean(flag) => boolean_value(*flag),
        FieldValue::Text(text) => text_value(text.as_str()),
    }
}

/// Encodes the fields of a signal as its payload: one object, with one entry
/// for each field in the order given. Where a name comes twice, the later
/// value takes the place of the earlier one.
pub fn encode_fields(fields: &Vec<Field>) -> (payload: String)
    ensures
        payload@ == payload_of(views(fields@)),
{
    let mut object = empty_object();
    let mut i: usize = 0;
    while i < fields.len()
        invariant
            i <= fields.len(),
            members_held(object) == members_for(views(fields@).take(i as int)),
        decreases fields.len() - i,
    {
        let field = &fields[i];
        let value = value_to_json(&field.value);
        insert(&mut object, field.name.as_str(), value);
        proof {
            let done = views(fields@).take(i as int);
            let next = views(fields@).take(i as int + 1);
            assert(next.drop_last() == done);
            assert(next.last() == field@);
        }
        i += 1;
    }
    proof {
        assert(views(fields@).take(i as int) == views(fields@));
    }
    stringify(object)
}

} // verus!
