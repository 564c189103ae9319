//! The in-memory representation of a parsed schema document.
//!
//! A schema-language front end produces one [`Intermediate`] per document:
//! the configuration blocks (datasources and generators, opaque here) and
//! the datamodel, an ordered collection of models. The renaming transform
//! mutates this representation in place; the front end renders it back to
//! text afterwards.

use vstd::prelude::*;

verus! {

/// The datasource and generator declarations of a schema document. They are
/// opaque to the renaming transform and pass through unchanged.
#[derive(Debug)]
pub struct Configuration {
    pub text: String,
}

/// A named attribute of a model. Everything besides the two identifiers —
/// the type, the default, the constraints — is opaque to the renaming
/// transform and passes through unchanged.
#[derive(Debug)]
pub struct Field {
    /// The identifier used in code-facing contexts.
    pub name: String,
    /// The identifier used in the underlying storage, when it differs from
    /// `name`; rendered as a mapping annotation.
    pub database_name: Option<String>,
    /// The field's type, as the front end wrote it.
    pub field_type: String,
    /// The field's remaining attributes, as the front end wrote them.
    pub attributes: Vec<String>,
}

/// One field reference inside an index definition. Its name must match the
/// current name of a field of the owning model.
#[derive(Debug)]
pub struct IndexField {
    pub name: String,
}

/// A named ordered set of field references forming a lookup constraint.
#[derive(Debug)]
pub struct IndexDefinition {
    /// The display name of the index.
    pub name: Option<String>,
    /// The identifier of the index in the underlying storage.
    pub db_name: Option<String>,
    /// The fields the index covers, in order.
    pub fields: Vec<IndexField>,
}

/// A named record type with fields and indexes.
#[derive(Debug)]
pub struct Model {
    /// The identifier used in code-facing contexts.
    pub name: String,
    /// The identifier used in the underlying storage, when it differs from
    /// `name`; rendered as a mapping annotation.
    pub database_name: Option<String>,
    /// The model's fields, in order.
    pub fields: Vec<Field>,
    /// The model's indexes, in order.
    pub indices: Vec<IndexDefinition>,
}

/// An ordered collection of models. The order is preserved end to end.
#[derive(Debug)]
pub struct Datamodel {
    pub models: Vec<Model>,
}

/// The full parsed representation of one schema document.
#[derive(Debug)]
pub struct Intermediate {
    pub config: Configuration,
    pub datamodel: Datamodel,
}

impl From<(Configuration, Datamodel)> for Intermediate {
    /// Assembles the representation from the two halves a front end
    /// produces: the configuration and the datamodel.
    fn from(parts: (Configuration, Datamodel)) -> (r: Intermediate) {
        let (config, datamodel) = parts;
        Intermediate { config, datamodel }
    }
}

impl vstd::std_specs::convert::FromSpecImpl<(Configuration, Datamodel)> for Intermediate {
    open spec fn obeys_from_spec() -> bool {
        true
    }

    open spec fn from_spec(parts: (Configuration, Datamodel)) -> Intermediate {
        Intermediate { config: parts.0, datamodel: parts.1 }
    }
}

/// The contents of an optional identifier, as a sequence of characters.
pub open spec fn opt_str(o: Option<String>) -> Option<Seq<char>> {
    match o {
        Some(s) => Some(s@),
        None => None,
    }
}

} // verus!
