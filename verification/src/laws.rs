//! The engine's laws, proved once and for all over the model: the
//! has-aware round trip, the two halves of the list size policy, union
//! omission, and enum fidelity.

use vstd::prelude::*;

use crate::de::{de, de_entries, de_items, padded};
use crate::error::ConvError;
use crate::model::{
    default_val, distinct_names, field_names, fresh_slots, has_union,
    lemma_find_name_hit, lemma_find_name_miss, lemma_take_full, lemma_take_step, one_active,
    round_trippable, scalar_kind, wf_ty, wf_val, write_slot, EnumTy, FieldTy, InVal, OutVal,
    StructTy, Ty, Val,
};
use crate::protocol::{encode, encode_entries, encode_items};
use crate::ser::{ser, ser_fields, ser_items};

verus! {

// ------------------------------------------------------------------
// The round trip
// ------------------------------------------------------------------

/// Some union member among the first `k` slots is present.
pub open spec fn union_written_before(
    fields: Seq<FieldTy>,
    slots: Seq<Option<Val>>,
    k: int,
) -> bool {
    exists|u: int|
        0 <= u < k && u < fields.len() && #[trigger] fields[u].in_union && slots[u] is Some
}

/// The slots of a struct rebuilt from its serialized image after the first
/// `k` fields have been replayed: a present slot is written back; a union
/// member not written is deactivated by the one union write; everything
/// else is still at its fresh state.
pub open spec fn merged_at(
    fields: Seq<FieldTy>,
    slots: Seq<Option<Val>>,
    k: int,
    j: int,
) -> Option<Val> {
    if 0 <= j < k && slots[j] is Some {
        slots[j]
    } else if 0 <= j < fields.len() && fields[j].in_union && union_written_before(
        fields,
        slots,
        k,
    ) {
        None
    } else {
        fresh_slots(fields)[j]
    }
}

pub open spec fn merged(fields: Seq<FieldTy>, slots: Seq<Option<Val>>, k: int) -> Seq<
    Option<Val>,
> {
    Seq::new(slots.len(), |j: int| merged_at(fields, slots, k, j))
}

/// Round trip (has-aware): a representable, fully known value serializes,
/// passes through a size-reporting, byte-capable backend, and deserializes
/// under its own type to exactly itself. Every present field of the
/// original is present and equal in the result, and every absent field is
/// back at its schema-default state — which the equality subsumes, since a
/// representable value carries its absent fields exactly as a fresh struct
/// plus its writes does.
#[verifier::rlimit(80)]
pub proof fn law_round_trip(t: Ty, v: Val)
    requires
        wf_ty(t),
        wf_val(v, t),
        round_trippable(v),
    ensures
        ser(v) is Ok,
        encode(ser(v).unwrap(), true, true) is Ok,
        de(t, encode(ser(v).unwrap(), true, true).unwrap()) == Ok::<Option<Val>, ConvError>(
            Some(v),
        ),
    decreases v, 0nat,
{
    match v {
        Val::Struct(st, slots) => {
            let n = slots.len() as int;
            law_rt_fields(st, slots, n);
            lemma_take_full(st.fields);
            lemma_take_full(slots);
            assert(st.fields.take(n) == st.fields.take(st.fields.len() as int));
            assert(slots.take(n) =~= slots);
            assert(st.fields.take(n) =~= st.fields);
            assert(ser_fields(st.fields.take(n), slots.take(n)) == ser_fields(st.fields, slots));
            let entries = ser_fields(st.fields, slots).unwrap();
            assert(ser(v) == Ok::<OutVal, ConvError>(OutVal::Record(entries)));
            let ins = encode_entries(entries, true, true).unwrap();
            assert(encode(OutVal::Record(entries), true, true) == Ok::<InVal, ConvError>(
                InVal::Record(ins),
            ));
            assert(de_entries(st, ins) == Ok::<_, ConvError>(merged(st.fields, slots, n)));
            assert forall|j: int| 0 <= j < slots.len() implies merged(st.fields, slots, n)[j]
                == slots[j] by {
                lemma_merged_full_at(st, slots, j);
            }
            assert(merged(st.fields, slots, n) =~= slots);
            assert(de(t, InVal::Record(ins)) == Ok::<Option<Val>, ConvError>(Some(v)));
        },
        Val::List(e, items) => {
            let n = items.len() as int;
            law_rt_items(e, items, n);
            lemma_take_full(items);
            assert(items.take(n) =~= items);
            let os = ser_items(items).unwrap();
            assert(ser(v) == Ok::<OutVal, ConvError>(OutVal::Sequence(os)));
            let ins = encode_items(os, true, true).unwrap();
            assert(os.len() == n && ins.len() == n);
            assert(encode(OutVal::Sequence(os), true, true) == Ok::<InVal, ConvError>(
                InVal::Sequence(Some(n), ins),
            ));
            assert(de_items(e, ins) == Ok::<_, ConvError>(items));
            assert(items + padded(e, 0) =~= items);
            assert(de(t, InVal::Sequence(Some(n), ins)) == Ok::<Option<Val>, ConvError>(
                Some(v),
            ));
        },
        Val::Enum(et, ord) => {
            lemma_find_name_hit(et.enumerants, ord as int);
        },
        _ => {},
    }
}

/// A representable value carries each absent field exactly as the replay
/// of its present fields over a fresh struct leaves it.
proof fn lemma_merged_full_at(st: StructTy, slots: Seq<Option<Val>>, j: int)
    requires
        wf_val(Val::Struct(st, slots), Ty::Struct(st)),
        0 <= j < slots.len(),
    ensures
        merged_at(st.fields, slots, slots.len() as int, j) == slots[j],
{
    let n = slots.len() as int;
    if slots[j] is Some {
    } else {
        if st.fields[j].in_union {
            assert(has_union(st.fields));
            assert(one_active(st.fields, slots));
            let k0 = choose|k0: int|
                {
                    &&& 0 <= k0 < st.fields.len()
                    &&& #[trigger] st.fields[k0].in_union
                    &&& slots[k0] is Some
                    &&& forall|u: int|
                        0 <= u < st.fields.len() && #[trigger] st.fields[u].in_union && u != k0
                            ==> slots[u] is None
                };
            assert(union_written_before(st.fields, slots, n));
        } else {
            if scalar_kind(st.fields[j].ty) {
                assert(slots[j] is Some);
            }
            assert(fresh_slots(st.fields)[j] is None);
        }
    }
}

/// The round trip, field by field, as the has-aware statement reads: for
/// every field the original has, the rebuilt struct carries an equal
/// value; every field the original does not have is at its schema-default
/// state in the rebuilt struct (unset when it is a pointer field, and an
/// inactive union branch stays inactive, since the one active branch of
/// the original is re-activated).
pub proof fn law_round_trip_per_field(st: StructTy, slots: Seq<Option<Val>>, j: int)
    requires
        wf_ty(Ty::Struct(st)),
        wf_val(Val::Struct(st, slots), Ty::Struct(st)),
        round_trippable(Val::Struct(st, slots)),
        0 <= j < slots.len(),
    ensures
        ({
            let rebuilt = de(
                Ty::Struct(st),
                encode(ser(Val::Struct(st, slots)).unwrap(), true, true).unwrap(),
            );
            &&& rebuilt == Ok::<Option<Val>, ConvError>(Some(Val::Struct(st, slots)))
            &&& (slots[j] is Some ==> (rebuilt.unwrap().unwrap() matches Val::Struct(_, rs)
                && rs[j] == slots[j]))
            &&& (slots[j] is None && !st.fields[j].in_union ==> (rebuilt.unwrap().unwrap()
                matches Val::Struct(_, rs) && rs[j] == fresh_slots(st.fields)[j]))
        }),
{
    law_round_trip(Ty::Struct(st), Val::Struct(st, slots));
    if slots[j] is None && !st.fields[j].in_union {
        if scalar_kind(st.fields[j].ty) {
            assert(slots[j] is Some);
        }
        assert(fresh_slots(st.fields)[j] is None);
    }
}

/// The round trip of the first `k` fields of a struct: serializing them,
/// encoding, and replaying the entries over a fresh struct yields the
/// merged slots.
proof fn law_rt_fields(st: StructTy, slots: Seq<Option<Val>>, k: int)
    requires
        wf_ty(Ty::Struct(st)),
        wf_val(Val::Struct(st, slots), Ty::Struct(st)),
        round_trippable(Val::Struct(st, slots)),
        0 <= k <= slots.len(),
    ensures
        ser_fields(st.fields.take(k), slots.take(k)) is Ok,
        encode_entries(ser_fields(st.fields.take(k), slots.take(k)).unwrap(), true, true) is Ok,
        de_entries(
            st,
            encode_entries(ser_fields(st.fields.take(k), slots.take(k)).unwrap(), true, true)
                .unwrap(),
        ) == Ok::<Seq<Option<Val>>, ConvError>(merged(st.fields, slots, k)),
    decreases slots, k,
{
    if k == 0 {
        assert(st.fields.take(0) =~= Seq::<FieldTy>::empty());
        assert(slots.take(0) =~= Seq::<Option<Val>>::empty());
        let entries = ser_fields(st.fields.take(0), slots.take(0)).unwrap();
        assert(entries =~= Seq::<(Seq<char>, OutVal)>::empty());
        let ins = encode_entries(entries, true, true).unwrap();
        assert(ins =~= Seq::<(Seq<char>, InVal)>::empty());
        assert(de_entries(st, ins) == Ok::<_, ConvError>(fresh_slots(st.fields)));
        assert forall|j: int| 0 <= j < slots.len() implies merged(st.fields, slots, 0)[j]
            == fresh_slots(st.fields)[j] by {
            assert(!union_written_before(st.fields, slots, 0));
        }
        assert(merged(st.fields, slots, 0) =~= fresh_slots(st.fields));
    } else {
        law_rt_fields(st, slots, k - 1);
        lemma_take_step(st.fields, k - 1);
        lemma_take_step(slots, k - 1);
        let prev_entries = ser_fields(st.fields.take(k - 1), slots.take(k - 1)).unwrap();
        let prev_ins = encode_entries(prev_entries, true, true).unwrap();
        match slots[k - 1] {
            None => {
                assert(ser_fields(st.fields.take(k), slots.take(k)) == Ok::<_, ConvError>(
                    prev_entries,
                ));
                assert forall|j: int| 0 <= j < slots.len() implies merged(st.fields, slots, k)[j]
                    == merged(st.fields, slots, k - 1)[j] by {
                    lemma_union_written_step_none(st.fields, slots, k);
                }
                assert(merged(st.fields, slots, k) =~= merged(st.fields, slots, k - 1));
            },
            Some(w) => {
                assert(wf_val(w, st.fields[k - 1].ty));
                assert(round_trippable(w));
                assert(wf_ty(st.fields[k - 1].ty));
                law_round_trip(st.fields[k - 1].ty, w);
                let o_w = ser(w).unwrap();
                let i_w = encode(o_w, true, true).unwrap();
                let name = st.fields[k - 1].name;
                let entries = prev_entries.push((name, o_w));
                assert(ser_fields(st.fields.take(k), slots.take(k)) == Ok::<_, ConvError>(
                    entries,
                ));
                assert(entries.drop_last() =~= prev_entries);
                let ins = prev_ins.push((name, i_w));
                assert(encode_entries(entries, true, true) == Ok::<_, ConvError>(ins));
                assert(ins.drop_last() =~= prev_ins);
                // Replaying the new entry writes slot k - 1.
                assert(field_names(st.fields)[k - 1] == name);
                lemma_find_name_hit(field_names(st.fields), k - 1);
                assert(de_entries(st, ins) == Ok::<_, ConvError>(
                    write_slot(st.fields, merged(st.fields, slots, k - 1), k - 1, w),
                ));
                lemma_write_merged(st, slots, k, w);
            },
        }
    }
}

/// A skipped (absent) field does not change what has been written.
proof fn lemma_union_written_step_none(fields: Seq<FieldTy>, slots: Seq<Option<Val>>, k: int)
    requires
        0 < k,
        !(slots[k - 1] is Some),
    ensures
        union_written_before(fields, slots, k) == union_written_before(fields, slots, k - 1),
{
    if union_written_before(fields, slots, k) {
        let u = choose|u: int|
            0 <= u < k && u < fields.len() && #[trigger] fields[u].in_union && slots[u] is Some;
        assert(u != k - 1);
        assert(union_written_before(fields, slots, k - 1));
    }
}

/// Writing field `k - 1` of the replay advances the merge by one field.
proof fn lemma_write_merged(st: StructTy, slots: Seq<Option<Val>>, k: int, w: Val)
    requires
        wf_val(Val::Struct(st, slots), Ty::Struct(st)),
        0 < k <= slots.len(),
        slots[k - 1] == Some(w),
    ensures
        write_slot(st.fields, merged(st.fields, slots, k - 1), k - 1, w) =~= merged(
            st.fields,
            slots,
            k,
        ),
{
    let fields = st.fields;
    let prev = merged(fields, slots, k - 1);
    let post = write_slot(fields, prev, k - 1, w);
    assert(fields.len() == slots.len());
    if fields[k - 1].in_union {
        assert(union_written_before(fields, slots, k));
        assert forall|j: int| 0 <= j < slots.len() implies post[j] == merged(fields, slots, k)[j]
            by {
            if j == k - 1 {
            } else if fields[j].in_union {
                assert(post[j] is None);
            } else {
                lemma_union_written_nonunion(fields, slots, k, j);
            }
        }
    } else {
        assert forall|j: int| 0 <= j < slots.len() implies post[j] == merged(fields, slots, k)[j]
            by {
            if j == k - 1 {
                assert(post[j] == Some(w));
            } else {
                if union_written_before(fields, slots, k) {
                    let u = choose|u: int|
                        0 <= u < k && u < fields.len() && #[trigger] fields[u].in_union
                            && slots[u] is Some;
                    assert(u != k - 1);
                    assert(union_written_before(fields, slots, k - 1));
                }
            }
        }
    }
}

/// A non-union slot's merged state does not depend on union writes.
proof fn lemma_union_written_nonunion(
    fields: Seq<FieldTy>,
    slots: Seq<Option<Val>>,
    k: int,
    j: int,
)
    requires
        0 < k,
        0 <= j < fields.len(),
        j != k - 1,
        !fields[j].in_union,
    ensures
        merged_at(fields, slots, k, j) == merged_at(fields, slots, k - 1, j),
{
}

/// The round trip of the first `k` elements of a list: the buffered
/// element values come back exactly and in order.
proof fn law_rt_items(e: Ty, items: Seq<Val>, k: int)
    requires
        wf_ty(e),
        forall|i: int| 0 <= i < items.len() ==> wf_val(#[trigger] items[i], e),
        forall|i: int| 0 <= i < items.len() ==> round_trippable(#[trigger] items[i]),
        0 <= k <= items.len(),
    ensures
        ser_items(items.take(k)) is Ok,
        ser_items(items.take(k)).unwrap().len() == k,
        encode_items(ser_items(items.take(k)).unwrap(), true, true) is Ok,
        encode_items(ser_items(items.take(k)).unwrap(), true, true).unwrap().len() == k,
        de_items(e, encode_items(ser_items(items.take(k)).unwrap(), true, true).unwrap())
            == Ok::<Seq<Val>, ConvError>(items.take(k)),
    decreases items, k,
{
    if k == 0 {
        assert(items.take(0) =~= Seq::<Val>::empty());
        let os = ser_items(items.take(0)).unwrap();
        assert(os =~= Seq::<OutVal>::empty());
        let ins = encode_items(os, true, true).unwrap();
        assert(ins =~= Seq::<InVal>::empty());
    } else {
        law_rt_items(e, items, k - 1);
        lemma_take_step(items, k - 1);
        law_round_trip(e, items[k - 1]);
        let prev_os = ser_items(items.take(k - 1)).unwrap();
        let prev_ins = encode_items(prev_os, true, true).unwrap();
        let o_w = ser(items[k - 1]).unwrap();
        let i_w = encode(o_w, true, true).unwrap();
        let os = prev_os.push(o_w);
        assert(ser_items(items.take(k)) == Ok::<_, ConvError>(os));
        assert(os.drop_last() =~= prev_os);
        let ins = prev_ins.push(i_w);
        assert(encode_items(os, true, true) == Ok::<_, ConvError>(ins));
        assert(ins.drop_last() =~= prev_ins);
        assert(de_items(e, ins) == Ok::<_, ConvError>(items.take(k - 1).push(items[k - 1])));
        assert(items.take(k - 1).push(items[k - 1]) =~= items.take(k));
    }
}

// ------------------------------------------------------------------
// List size policy
// ------------------------------------------------------------------

/// Without a size hint, a bufferable-element list decodes through the
/// temporary buffer to exactly what the hinted path would produce: the
/// same elements, in their original order.
pub proof fn law_list_buffered_matches_hinted(elem: Ty, items: Seq<InVal>)
    requires
        crate::de::bufferable(elem),
    ensures
        de(Ty::List(Box::new(elem)), InVal::Sequence(None, items)) == de(
            Ty::List(Box::new(elem)),
            InVal::Sequence(Some(items.len() as int), items),
        ),
{
    match de_items(elem, items) {
        Ok(vs) => {
            assert(vs + padded(elem, 0) =~= vs);
        },
        Err(_) => {},
    }
}

/// List elements decode position by position, in their original order: a
/// decoded list is exactly as long as its input, and its element at `i` is
/// what the element type makes of the input element at `i` (the element
/// default where the numeric token did not fit).
pub proof fn law_list_elementwise(elem: Ty, items: Seq<InVal>)
    requires
        de_items(elem, items) is Ok,
    ensures
        de_items(elem, items).unwrap().len() == items.len(),
        forall|i: int|
            0 <= i < items.len() ==> de(elem, #[trigger] items[i]) is Ok && de_items(
                elem,
                items,
            ).unwrap()[i] == (match de(elem, items[i]).unwrap() {
                Some(w) => w,
                None => default_val(elem),
            }),
    decreases items,
{
    if items.len() > 0 {
        law_list_elementwise(elem, items.drop_last());
        let vs = de_items(elem, items).unwrap();
        let prev = de_items(elem, items.drop_last()).unwrap();
        assert forall|i: int| 0 <= i < items.len() implies de(elem, #[trigger] items[i]) is Ok
            && vs[i] == (match de(elem, items[i]).unwrap() {
            Some(w) => w,
            None => default_val(elem),
        }) by {
            if i < items.len() - 1 {
                assert(items.drop_last()[i] == items[i]);
                assert(vs[i] == prev[i]);
            } else {
                assert(items.last() == items[i]);
            }
        }
    }
}

/// Without a size hint, a pointer-bearing element type fails immediately:
/// there is no intermediate representation able to hold a not-yet-built
/// struct or list.
pub proof fn law_list_no_hint_pointer(elem: Ty, items: Seq<InVal>)
    requires
        elem is Struct || elem is List,
    ensures
        de(Ty::List(Box::new(elem)), InVal::Sequence(None, items)) == Err::<
            Option<Val>,
            ConvError,
        >(ConvError::SizeUnavailable),
{
}

// ------------------------------------------------------------------
// Union omission
// ------------------------------------------------------------------

/// Some present field bears this name.
pub open spec fn present_field_named(
    fields: Seq<FieldTy>,
    slots: Seq<Option<Val>>,
    name: Seq<char>,
) -> bool {
    exists|i: int| 0 <= i < fields.len() && #[trigger] fields[i].name == name && slots[i] is Some
}

/// A name borne by a present field of the shorter lists is borne by one of
/// the full lists.
proof fn lemma_present_field_extend(fields: Seq<FieldTy>, slots: Seq<Option<Val>>, name: Seq<char>)
    requires
        fields.len() == slots.len(),
        slots.len() > 0,
        present_field_named(fields.drop_last(), slots.drop_last(), name),
    ensures
        present_field_named(fields, slots, name),
{
    let i = choose|i: int|
        0 <= i < fields.drop_last().len() && #[trigger] fields.drop_last()[i].name == name
            && slots.drop_last()[i] is Some;
    assert(fields[i].name == name && slots[i] is Some);
}

/// Every record entry a struct serializes to is named after one of its
/// present fields.
proof fn lemma_ser_fields_names(fields: Seq<FieldTy>, slots: Seq<Option<Val>>)
    requires
        fields.len() == slots.len(),
        ser_fields(fields, slots) is Ok,
    ensures
        forall|j: int|
            #![trigger ser_fields(fields, slots).unwrap()[j]]
            0 <= j < ser_fields(fields, slots).unwrap().len() ==> present_field_named(
                fields,
                slots,
                ser_fields(fields, slots).unwrap()[j].0,
            ),
    decreases slots,
{
    if slots.len() == 0 {
    } else {
        lemma_ser_fields_names(fields.drop_last(), slots.drop_last());
        let entries = ser_fields(fields, slots).unwrap();
        let prev = ser_fields(fields.drop_last(), slots.drop_last()).unwrap();
        assert forall|j: int| #![trigger entries[j]] 0 <= j < entries.len() implies
            present_field_named(fields, slots, entries[j].0) by {
            if j < prev.len() {
                assert(present_field_named(fields.drop_last(), slots.drop_last(), prev[j].0));
                assert(entries[j] == prev[j]);
                lemma_present_field_extend(fields, slots, prev[j].0);
            } else {
                let i = slots.len() - 1;
                assert(entries[j].0 == fields[i].name && slots[i] is Some);
            }
        }
    }
}

/// A present field's name appears among the record entries.
proof fn lemma_ser_fields_present(fields: Seq<FieldTy>, slots: Seq<Option<Val>>, i: int)
    requires
        fields.len() == slots.len(),
        ser_fields(fields, slots) is Ok,
        0 <= i < slots.len(),
        slots[i] is Some,
    ensures
        exists|j: int|
            0 <= j < ser_fields(fields, slots).unwrap().len() && #[trigger] ser_fields(
                fields,
                slots,
            ).unwrap()[j].0 == fields[i].name,
    decreases slots,
{
    let entries = ser_fields(fields, slots).unwrap();
    if i == slots.len() - 1 {
        assert(entries[entries.len() - 1].0 == fields[i].name);
    } else {
        lemma_ser_fields_present(fields.drop_last(), slots.drop_last(), i);
        let prev = ser_fields(fields.drop_last(), slots.drop_last()).unwrap();
        let j = choose|j: int| 0 <= j < prev.len() && #[trigger] prev[j].0
            == fields.drop_last()[i].name;
        assert(entries[j].0 == fields[i].name);
    }
}

/// Union omission: a struct with active union branch `k0` serializes with
/// exactly one union-member key — `k0`'s name — among its record entries,
/// and (being a representable value) deserializing that output re-activates
/// branch `k0` and no other.
pub proof fn law_union_omission(st: StructTy, slots: Seq<Option<Val>>, k0: int)
    requires
        wf_ty(Ty::Struct(st)),
        wf_val(Val::Struct(st, slots), Ty::Struct(st)),
        round_trippable(Val::Struct(st, slots)),
        0 <= k0 < st.fields.len(),
        st.fields[k0].in_union,
        slots[k0] is Some,
    ensures
        ser(Val::Struct(st, slots)) is Ok,
        exists|j: int|
            0 <= j < ser_fields(st.fields, slots).unwrap().len() && #[trigger] ser_fields(
                st.fields,
                slots,
            ).unwrap()[j].0 == st.fields[k0].name,
        forall|j: int, u: int|
            0 <= j < ser_fields(st.fields, slots).unwrap().len() && 0 <= u < st.fields.len()
                && st.fields[u].in_union && u != k0 ==> #[trigger] ser_fields(
                st.fields,
                slots,
            ).unwrap()[j].0 != #[trigger] st.fields[u].name,
        de(
            Ty::Struct(st),
            encode(ser(Val::Struct(st, slots)).unwrap(), true, true).unwrap(),
        ) == Ok::<Option<Val>, ConvError>(Some(Val::Struct(st, slots))),
    decreases 0nat,
{
    law_round_trip(Ty::Struct(st), Val::Struct(st, slots));
    lemma_ser_fields_names(st.fields, slots);
    lemma_ser_fields_present(st.fields, slots, k0);
    let entries = ser_fields(st.fields, slots).unwrap();
    assert forall|j: int, u: int|
        0 <= j < entries.len() && 0 <= u < st.fields.len() && st.fields[u].in_union && u != k0
            implies #[trigger] entries[j].0 != #[trigger] st.fields[u].name by {
        if entries[j].0 == st.fields[u].name {
            assert(present_field_named(st.fields, slots, entries[j].0));
            let i = choose|i: int|
                0 <= i < st.fields.len() && #[trigger] st.fields[i].name == entries[j].0
                    && slots[i] is Some;
            assert(field_names(st.fields)[i] == st.fields[i].name);
            assert(field_names(st.fields)[u] == st.fields[u].name);
            assert(distinct_names(field_names(st.fields)));
            assert(i == u);
            assert(one_active(st.fields, slots));
            let c = choose|c: int|
                {
                    &&& 0 <= c < st.fields.len()
                    &&& #[trigger] st.fields[c].in_union
                    &&& slots[c] is Some
                    &&& forall|x: int|
                        0 <= x < st.fields.len() && #[trigger] st.fields[x].in_union && x != c
                            ==> slots[x] is None
                };
            assert(c == k0);
            assert(slots[u] is None);
        }
    }
}

// ------------------------------------------------------------------
// Enum fidelity
// ------------------------------------------------------------------

/// An enum value with a known ordinal serializes to that enumerant's named
/// variant, and deserializing the enumerant's name reproduces the ordinal.
pub proof fn law_enum_fidelity(et: EnumTy, ord: u16)
    requires
        distinct_names(et.enumerants),
        (ord as int) < et.enumerants.len(),
    ensures
        ser(Val::Enum(et, ord)) == Ok::<OutVal, ConvError>(
            OutVal::Variant {
                enum_name: et.name,
                ordinal: ord as u32,
                name: et.enumerants[ord as int],
            },
        ),
        de(Ty::Enum(et), InVal::Str(et.enumerants[ord as int])) == Ok::<Option<Val>, ConvError>(
            Some(Val::Enum(et, ord)),
        ),
{
    lemma_find_name_hit(et.enumerants, ord as int);
}

/// An identifier that names no enumerant fails with the unknown-enumerant
/// error.
pub proof fn law_enum_unknown(et: EnumTy, s: Seq<char>)
    requires
        forall|i: int| 0 <= i < et.enumerants.len() ==> et.enumerants[i] != s,
    ensures
        de(Ty::Enum(et), InVal::Str(s)) == Err::<Option<Val>, ConvError>(
            ConvError::UnknownEnumerant,
        ),
{
    lemma_find_name_miss(et.enumerants, s);
}

} // verus!
