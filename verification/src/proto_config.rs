//! The file a derivation writes its definitions to: `#[proto_message(file = "name.proto")]`.

use vstd::prelude::*;

use crate::config::eq_expr;
use crate::meta::{AttrModel, MetaExpr, MetaItem, MetaValue, path_is, path_is_ident};
use crate::text::string_of;

verus! {

broadcast use vstd::std_specs::vec::group_vec_axioms;

pub struct ProtoConfig {
    pub file_name: String,
}

/// The file used when none is named.
pub open spec fn default_file_name() -> Seq<char> {
    "generated.proto"@
}

impl Default for ProtoConfig {
    fn default() -> (r: ProtoConfig)
        ensures
            r.file_name@ == default_file_name(),
    {
        ProtoConfig { file_name: string_of("generated.proto") }
    }
}

/// The macro attribute is empty, or the single option `file = "..."` with a string literal.
pub open spec fn proto_config_ok(items: Seq<MetaItem>) -> bool {
    items.len() == 0 || (items.len() == 1 && path_is(items[0].path@, "file"@) && eq_expr(
        items[0].value,
    ) matches Some(MetaExpr::Str(_)))
}

/// The file the macro attribute names, or the default one.
pub open spec fn proto_config_spec(items: Seq<MetaItem>) -> Seq<char> {
    if items.len() == 0 {
        default_file_name()
    } else {
        match eq_expr(items[0].value) {
            Some(MetaExpr::Str(s)) => s@,
            _ => default_file_name(),
        }
    }
}

impl ProtoConfig {
    /// Whether the macro attribute can be read (see `proto_config_ok`).
    pub fn proto_config_readable(items: &Vec<MetaItem>) -> (r: bool)
        ensures
            r == proto_config_ok(items@),
    {
        if items.len() == 0 {
            return true;
        }
        if items.len() != 1 || !path_is_ident(&items[0].path, "file") {
            return false;
        }
        match &items[0].value {
            MetaValue::Eq(v) => matches!(v.expr, Some(MetaExpr::Str(_))),
            _ => false,
        }
    }

    /// The configuration the macro attribute gives: the file it names, or `generated.proto`.
    /// The item's own attributes do not take part.
    pub fn parse_proto_config(items: &Vec<MetaItem>, item_attrs: &Vec<AttrModel>) -> (r: ProtoConfig)
        requires
            proto_config_ok(items@),
        ensures
            r.file_name@ == proto_config_spec(items@),
    {
        let mut config = ProtoConfig::default();
        if items.len() > 0 {
            if let MetaValue::Eq(v) = &items[0].value {
                if let Some(MetaExpr::Str(s)) = &v.expr {
                    config.file_name = s.clone();
                }
            }
        }
        config
    }
}

} // verus!
