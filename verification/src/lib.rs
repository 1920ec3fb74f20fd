use vstd::prelude::*;

pub mod schema_core;
pub mod anchors;
pub mod ascii;
pub mod any_type;
pub mod binary;
pub mod context;
pub mod boolean;
pub mod code_receiver;
pub mod compare;
pub mod enumeration;
pub mod error;
pub mod identifier;
pub mod id_order;
pub mod ine_range;
pub mod key_ref;
pub mod compare_laws;
pub mod map;
pub mod metadata;
pub mod option;
pub mod range;
pub mod reference;
pub mod root_map;
pub mod schema;
pub mod schema_anchors;
pub mod schema_builder;

pub mod self_schema;
pub mod seq;
pub mod sint;
pub mod structure;
pub mod uint;
pub mod unicode;
pub mod uuid;
pub mod validation;
pub mod validation_laws;
pub mod validator;
pub mod type_container;
pub mod type_eq;
pub mod type_info;
pub mod type_laws;
pub mod value;

verus! {
} // verus!
