//! The naming transform.
//!
//! Walks the datamodel and rewrites every identifier to the code-facing
//! convention: model names to UpperCamelCase, field and index names to
//! lowerCamelCase. Each original identifier is recorded as the entity's
//! database name, so the on-storage name stays discoverable; everything
//! else — configuration, field types, attributes, ordering — passes
//! through unchanged.

use vstd::prelude::*;

use crate::casing::{
    lemma_lower_camel_fixed, lemma_upper_camel_fixed, lower_camel, lower_camel_form,
    to_lower_camel_case, to_upper_camel_case, upper_camel, upper_camel_form,
};
use crate::dml::{Datamodel, Field, IndexDefinition, IndexField, Intermediate, Model, opt_str};

verus! {

/// How a field looks after the transform: the name converted to
/// lowerCamelCase, the original name recorded as the database name, the
/// type and the attributes untouched.
pub open spec fn field_renamed(f0: Field, f1: Field) -> bool {
    &&& f1.name@ == lower_camel(f0.name@)
    &&& opt_str(f1.database_name) == Some(f0.name@)
    &&& f1.field_type == f0.field_type
    &&& f1.attributes == f0.attributes
}

/// How an index field reference looks after the transform: the referenced
/// name converted to lowerCamelCase, in step with the field it names.
pub open spec fn index_field_renamed(x0: IndexField, x1: IndexField) -> bool {
    x1.name@ == lower_camel(x0.name@)
}

/// How an index looks after the transform: the database name untouched;
/// the display name derived from the database name when there is one, and
/// untouched otherwise; every field reference renamed in order.
pub open spec fn index_renamed(i0: IndexDefinition, i1: IndexDefinition) -> bool {
    &&& i1.db_name == i0.db_name
    &&& match i0.db_name {
        Some(d) => opt_str(i1.name) == Some(lower_camel(d@)),
        None => i1.name == i0.name,
    }
    &&& i1.fields@.len() == i0.fields@.len()
    &&& forall|j: int|
        0 <= j < i0.fields@.len() ==> index_field_renamed(
            #[trigger] i0.fields@[j],
            i1.fields@[j],
        )
}

/// How a model looks after the transform: the name converted to
/// UpperCamelCase, the original name recorded as the database name, every
/// field and index renamed in order.
pub open spec fn model_renamed(m0: Model, m1: Model) -> bool {
    &&& m1.name@ == upper_camel(m0.name@)
    &&& opt_str(m1.database_name) == Some(m0.name@)
    &&& m1.fields@.len() == m0.fields@.len()
    &&& forall|j: int|
        0 <= j < m0.fields@.len() ==> field_renamed(#[trigger] m0.fields@[j], m1.fields@[j])
    &&& m1.indices@.len() == m0.indices@.len()
    &&& forall|j: int|
        0 <= j < m0.indices@.len() ==> index_renamed(#[trigger] m0.indices@[j], m1.indices@[j])
}

/// How the whole datamodel looks after the transform: the same number of
/// models, each renamed, in their original order.
pub open spec fn datamodel_renamed(d0: Datamodel, d1: Datamodel) -> bool {
    &&& d1.models@.len() == d0.models@.len()
    &&& forall|j: int|
        0 <= j < d0.models@.len() ==> model_renamed(#[trigger] d0.models@[j], d1.models@[j])
}

fn rename_field(f: Field) -> (r: Field)
    ensures
        field_renamed(f, r),
{
    let Field { name, database_name: _, field_type, attributes } = f;
    let new_name = to_lower_camel_case(name.as_str());
    Field { name: new_name, database_name: Some(name), field_type, attributes }
}

fn rename_index_field(x: IndexField) -> (r: IndexField)
    ensures
        index_field_renamed(x, r),
{
    let new_name = to_lower_camel_case(x.name.as_str());
    IndexField { name: new_name }
}

fn rename_index_fields(v: Vec<IndexField>) -> (r: Vec<IndexField>)
    ensures
        r@.len() == v@.len(),
        forall|j: int| 0 <= j < v@.len() ==> index_field_renamed(#[trigger] v@[j], r@[j]),
{
    let ghost orig = v@;
    let mut rest = v;
    let mut out: Vec<IndexField> = Vec::new();
    proof {
        assert(rest@ =~= orig.skip(0));
    }
    while rest.len() > 0
        invariant
            out@.len() + rest@.len() == orig.len(),
            rest@ == orig.skip(out@.len() as int),
            forall|j: int| 0 <= j < out@.len() ==> index_field_renamed(#[trigger] orig[j], out@[j]),
        decreases rest@.len(),
    {
        let ghost k = out@.len() as int;
        let x = rest.remove(0);
        proof {
            assert(x == orig[k]);
        }
        out.push(rename_index_field(x));
        proof {
            assert(rest@ =~= orig.skip(k + 1));
        }
    }
    out
}

fn rename_index(ix: IndexDefinition) -> (r: IndexDefinition)
    ensures
        index_renamed(ix, r),
{
    let IndexDefinition { name, db_name, fields } = ix;
    let new_fields = rename_index_fields(fields);
    let new_name = match &db_name {
        Some(d) => Some(to_lower_camel_case(d.as_str())),
        None => name,
    };
    IndexDefinition { name: new_name, db_name, fields: new_fields }
}

fn rename_fields(v: Vec<Field>) -> (r: Vec<Field>)
    ensures
        r@.len() == v@.len(),
        forall|j: int| 0 <= j < v@.len() ==> field_renamed(#[trigger] v@[j], r@[j]),
{
    let ghost orig = v@;
    let mut rest = v;
    let mut out: Vec<Field> = Vec::new();
    proof {
        assert(rest@ =~= orig.skip(0));
    }
    while rest.len() > 0
        invariant
            out@.len() + rest@.len() == orig.len(),
            rest@ == orig.skip(out@.len() as int),
            forall|j: int| 0 <= j < out@.len() ==> field_renamed(#[trigger] orig[j], out@[j]),
        decreases rest@.len(),
    {
        let ghost k = out@.len() as int;
        let f = rest.remove(0);
        proof {
            assert(f == orig[k]);
        }
        out.push(rename_field(f));
        proof {
            assert(rest@ =~= orig.skip(k + 1));
        }
    }
    out
}

fn rename_indices(v: Vec<IndexDefinition>) -> (r: Vec<IndexDefinition>)
    ensures
        r@.len() == v@.len(),
        forall|j: int| 0 <= j < v@.len() ==> index_renamed(#[trigger] v@[j], r@[j]),
{
    let ghost orig = v@;
    let mut rest = v;
    let mut out: Vec<IndexDefinition> = Vec::new();
    proof {
        assert(rest@ =~= orig.skip(0));
    }
    while rest.len() > 0
        invariant
            out@.len() + rest@.len() == orig.len(),
            rest@ == orig.skip(out@.len() as int),
            forall|j: int| 0 <= j < out@.len() ==> index_renamed(#[trigger] orig[j], out@[j]),
        decreases rest@.len(),
    {
        let ghost k = out@.len() as int;
        let ix = rest.remove(0);
        proof {
            assert(ix == orig[k]);
        }
        out.push(rename_index(ix));
        proof {
            assert(rest@ =~= orig.skip(k + 1));
        }
    }
    out
}

fn rename_model(m: Model) -> (r: Model)
    ensures
        model_renamed(m, r),
{
    let Model { name, database_name: _, fields, indices } = m;
    let new_name = to_upper_camel_case(name.as_str());
    let new_fields = rename_fields(fields);
    let new_indices = rename_indices(indices);
    Model {
        name: new_name,
        database_name: Some(name),
        fields: new_fields,
        indices: new_indices,
    }
}

fn rename_models(v: Vec<Model>) -> (r: Vec<Model>)
    ensures
        r@.len() == v@.len(),
        forall|j: int| 0 <= j < v@.len() ==> model_renamed(#[trigger] v@[j], r@[j]),
{
    let ghost orig = v@;
    let mut rest = v;
    let mut out: Vec<Model> = Vec::new();
    proof {
        assert(rest@ =~= orig.skip(0));
    }
    while rest.len() > 0
        invariant
            out@.len() + rest@.len() == orig.len(),
            rest@ == orig.skip(out@.len() as int),
            forall|j: int| 0 <= j < out@.len() ==> model_renamed(#[trigger] orig[j], out@[j]),
        decreases rest@.len(),
    {
        let ghost k = out@.len() as int;
        let m = rest.remove(0);
        proof {
            assert(m == orig[k]);
        }
        out.push(rename_model(m));
        proof {
            assert(rest@ =~= orig.skip(k + 1));
        }
    }
    out
}

impl Intermediate {
    /// Rewrites every model and field identifier of the datamodel to the
    /// code-facing convention and records each original identifier as the
    /// entity's database name. The configuration, the opaque attributes and
    /// the order of models, fields and indexes are unchanged.
    pub fn transform_names(&mut self)
        ensures
            datamodel_renamed(old(self).datamodel, final(self).datamodel),
            final(self).config == old(self).config,
    {
        let mut models: Vec<Model> = Vec::new();
        core::mem::swap(&mut models, &mut self.datamodel.models);
        let renamed = rename_models(models);
        self.datamodel.models = renamed;
    }
}

/// Round-trip identity on names: a model whose name is already in the
/// target convention keeps that name, and its recorded database name is
/// the original name exactly.
pub proof fn lemma_model_roundtrip(m0: Model, m1: Model)
    requires
        model_renamed(m0, m1),
        upper_camel_form(m0.name@),
    ensures
        m1.name@ == m0.name@,
        opt_str(m1.database_name) == Some(m0.name@),
{
    lemma_upper_camel_fixed(m0.name@);
}

/// Round-trip identity on names: a field whose name is already in the
/// target convention keeps that name, and its recorded database name is
/// the original name exactly.
pub proof fn lemma_field_roundtrip(f0: Field, f1: Field)
    requires
        field_renamed(f0, f1),
        lower_camel_form(f0.name@),
    ensures
        f1.name@ == f0.name@,
        opt_str(f1.database_name) == Some(f0.name@),
{
    lemma_lower_camel_fixed(f0.name@);
}

/// Referential consistency: an index entry that referenced a field by name
/// before the transform carries exactly that field's new name after it, in
/// the same position of the index's field list.
pub proof fn lemma_index_reference_consistent(m0: Model, m1: Model, i: int, j: int, k: int)
    requires
        model_renamed(m0, m1),
        0 <= i < m0.indices@.len(),
        0 <= j < m0.indices@[i].fields@.len(),
        0 <= k < m0.fields@.len(),
        m0.indices@[i].fields@[j].name@ == m0.fields@[k].name@,
    ensures
        m1.indices@[i].fields@[j].name@ == m1.fields@[k].name@,
{
    assert(index_renamed(m0.indices@[i], m1.indices@[i]));
    assert(index_field_renamed(m0.indices@[i].fields@[j], m1.indices@[i].fields@[j]));
    assert(field_renamed(m0.fields@[k], m1.fields@[k]));
}

/// When a first run's renamed identifiers are in canonical shape — as they
/// are for ordinary snake_case schemas — a second run leaves every display
/// name unchanged. Only the database names are written again, this time
/// recording the already-converted names.
pub proof fn lemma_second_run_keeps_names(m0: Model, m1: Model, m2: Model)
    requires
        model_renamed(m0, m1),
        model_renamed(m1, m2),
        upper_camel_form(m1.name@),
        forall|j: int|
            0 <= j < m1.fields@.len() ==> lower_camel_form((#[trigger] m1.fields@[j]).name@),
    ensures
        m2.name@ == m1.name@,
        opt_str(m2.database_name) == Some(m1.name@),
        forall|j: int|
            0 <= j < m1.fields@.len() ==> (#[trigger] m2.fields@[j]).name@ == m1.fields@[j].name@,
{
    lemma_upper_camel_fixed(m1.name@);
    assert forall|j: int|
        0 <= j < m1.fields@.len() implies (#[trigger] m2.fields@[j]).name@
        == m1.fields@[j].name@ by {
        assert(field_renamed(m0.fields@[j], m1.fields@[j]));
        assert(field_renamed(m1.fields@[j], m2.fields@[j]));
        lemma_lower_camel_fixed(m1.fields@[j].name@);
    }
}

/// Order preservation: the sequence of transformed model names is exactly
/// the sequence of original model names, each converted, in the same
/// relative order.
pub proof fn lemma_model_order_preserved(d0: Datamodel, d1: Datamodel)
    requires
        datamodel_renamed(d0, d1),
    ensures
        d1.models@.map(|j: int, m: Model| m.name@) == d0.models@.map(
            |j: int, m: Model| upper_camel(m.name@),
        ),
{
    let a = d1.models@.map(|j: int, m: Model| m.name@);
    let b = d0.models@.map(|j: int, m: Model| upper_camel(m.name@));
    assert forall|j: int| 0 <= j < a.len() implies a[j] == b[j] by {
        assert(model_renamed(d0.models@[j], d1.models@[j]));
    }
    assert(a =~= b);
}

} // verus!
