use vstd::prelude::*;
use crate::report::{FieldView, Schema, SchemaView, StructItem, StructView, schemas_view, structs_view};
use crate::text::{bytes_of, contains_run, mentions, texts};

verus! {

/// Whether one of the attribute texts `attrs` holds `marker`.
pub open spec fn marked(attrs: Seq<Seq<char>>, marker: Seq<char>) -> bool {
    exists|i: int| 0 <= i < attrs.len() && contains_run(bytes_of(#[trigger] attrs[i]), bytes_of(marker))
}

/// The names of the fields whose attributes hold the foreign-key marker.
pub open spec fn foreign_keys_of(fs: Seq<FieldView>) -> Seq<Seq<char>>
    decreases fs.len(),
{
    if fs.len() == 0 {
        Seq::empty()
    } else {
        let prev = foreign_keys_of(fs.drop_last());
        if marked(fs.last().attributes, "foreign_key"@) {
            prev.push(fs.last().name)
        } else {
            prev
        }
    }
}

/// The schema of a struct.
pub open spec fn schema_of(s: StructView) -> SchemaView {
    SchemaView {
        name: s.name,
        attributes: s.attributes,
        fields: s.fields,
        foreign_keys: foreign_keys_of(s.fields),
    }
}

pub open spec fn schemas_of(v: Seq<StructView>) -> Seq<SchemaView> {
    v.map_values(|s: StructView| schema_of(s))
}

/// Whether one of `attrs` holds `marker`.
pub fn has_marker(attrs: &Vec<String>, marker: &str) -> (r: bool)
    ensures
        r == marked(texts(attrs@), marker@),
{
    let mut i: usize = 0;
    while i < attrs.len()
        invariant
            0 <= i <= attrs@.len(),
            forall|j: int| 0 <= j < i ==> !contains_run(bytes_of(#[trigger] texts(attrs@)[j]), bytes_of(marker@)),
        decreases attrs@.len() - i,
    {
        if mentions(attrs[i].as_str(), marker) {
            assert(texts(attrs@)[i as int] == attrs@[i as int]@);
            return true;
        }
        i = i + 1;
    }
    false
}

/// The schema of one struct: the fields annotated as foreign keys.
pub fn infer_schema(s: &StructItem) -> (r: Schema)
    ensures
        r@ == schema_of(s@),
{
    let mut keys: Vec<String> = Vec::new();
    let mut fields = Vec::new();
    let mut i: usize = 0;
    assert(texts(keys@) =~= Seq::<Seq<char>>::empty());
    while i < s.fields.len()
        invariant
            0 <= i <= s.fields@.len(),
            texts(keys@) == foreign_keys_of(s@.fields.take(i as int)),
            crate::report::fields_view(fields@) == s@.fields.take(i as int),
        decreases s.fields@.len() - i,
    {
        let f = &s.fields[i];
        assert(s@.fields.take(i + 1).drop_last() =~= s@.fields.take(i as int));
        assert(s@.fields[i as int] == f@);
        if has_marker(&f.attributes, "foreign_key") {
            let k = f.name.clone();
            assert(texts(keys@.push(k)) =~= texts(keys@).push(k@));
            keys.push(k);
        }
        let g = f.duplicate();
        assert(crate::report::fields_view(fields@.push(g)) =~= s@.fields.take(i + 1));
        fields.push(g);
        i = i + 1;
    }
    assert(s@.fields.take(i as int) =~= s@.fields);
    Schema {
        name: s.name.clone(),
        attributes: crate::report::copy_texts(&s.attributes),
        fields,
        foreign_keys: keys,
    }
}

/// The schema of each struct of an aggregates report, in order.
pub fn infer_schemas(structs: &Vec<StructItem>) -> (r: Vec<Schema>)
    ensures
        schemas_view(r@) == schemas_of(structs_view(structs@)),
{
    let mut out: Vec<Schema> = Vec::new();
    let mut i: usize = 0;
    while i < structs.len()
        invariant
            0 <= i <= structs@.len(),
            schemas_view(out@) == schemas_of(structs_view(structs@.take(i as int))),
        decreases structs@.len() - i,
    {
        let sc = infer_schema(&structs[i]);
        assert(structs@.take(i + 1) =~= structs@.take(i as int).push(structs@[i as int]));
        assert(structs_view(structs@.take(i + 1)) =~= structs_view(structs@.take(i as int)).push(structs@[i as int]@));
        assert(schemas_of(structs_view(structs@.take(i + 1))) =~= schemas_of(structs_view(structs@.take(i as int))).push(schema_of(structs@[i as int]@)));
        assert(schemas_view(out@.push(sc)) =~= schemas_view(out@).push(sc@));
        out.push(sc);
        i = i + 1;
    }
    assert(structs@.take(i as int) =~= structs@);
    out
}

} // verus!
