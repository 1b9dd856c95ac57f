//! The configuration of one derivation: the options of the macro attribute and of the item's
//! own attributes.

use vstd::prelude::*;

use crate::config::{
    eq_expr, extract_import_all_from, extract_item_generic_types, extract_item_imports,
    extract_item_validators, entries_match, generic_attrs_ok, generic_entries_spec,
    import_all_from_spec, item_imports_spec, opt_string, path_to_proto_package,
    proto_package_spec, validator_attrs_ok, validators_spec,
};
use crate::generics::{
    GenericTypeEntry, GenericTypeVariant, GenericVariantsError, generic_type_variants,
    generic_variants_spec, variants_view,
};
use crate::import_map::ImportMap;
use crate::imports::{ParseFieldAttr, union_imports};
use crate::meta::{AttrModel, MetaExpr, MetaItem, MetaValue, path_is, path_is_ident};
use crate::subst::{copy_type, type_eq};
use crate::text::{string_of, views};
use crate::types::{
    RustType, extract_type_ident, is_reference_sun, is_reference_sun_spec, normalize_sun_spec,
    normalize_sun_type, type_ident_spec,
};

verus! {

broadcast use vstd::std_specs::vec::group_vec_axioms;

/// A `sun` type: a type the message is also derived for.
pub struct SunConfig {
    /// The type, without a leading reference.
    pub ty: RustType,
    /// The name of the type's message: the identifier of its last path segment.
    pub message_ident: String,
    /// The type was given as a reference.
    pub by_ref: bool,
}

/// A `sun` type names a message: without its reference, it ends in an identifier.
pub open spec fn sun_ok(t: RustType) -> bool {
    type_ident_spec(normalize_sun_spec(t)) is Some
}

/// The sun holds the type as given.
pub open spec fn sun_rel(s: SunConfig, t: RustType) -> bool {
    &&& type_eq(normalize_sun_spec(t), s.ty)
    &&& s.message_ident@ == type_ident_spec(normalize_sun_spec(t))->Some_0
    &&& s.by_ref == is_reference_sun_spec(t)
}

/// The configuration of a derivation.
pub struct UnifiedProtoConfig {
    /// The `.proto` file the definitions are written to.
    pub proto_path: Option<String>,
    pub rpc_server: bool,
    pub rpc_client: bool,
    pub rpc_package: Option<String>,
    /// The package every referenced type is imported from.
    pub import_all_from: Option<String>,
    /// The types imported from each package.
    pub type_imports: ImportMap,
    /// The packages each `.proto` file imports.
    pub file_imports: ImportMap,
    pub suns: Vec<SunConfig>,
    pub transparent: bool,
    pub validator: Option<String>,
    pub validator_with_ext: Option<String>,
    pub generic_types: Vec<GenericTypeEntry>,
    /// The names of the item's type parameters, in order.
    pub generic_params: Vec<String>,
}

impl UnifiedProtoConfig {
    /// The import maps are well formed.
    pub open spec fn wf(&self) -> bool {
        self.type_imports.wf() && self.file_imports.wf()
    }
}

impl Default for UnifiedProtoConfig {
    fn default() -> (r: UnifiedProtoConfig)
        ensures
            r.wf(),
            r.proto_path is None,
            !r.rpc_server,
            !r.rpc_client,
            r.rpc_package is None,
            r.import_all_from is None,
            r.type_imports@ == Map::<Seq<char>, Set<Seq<char>>>::empty(),
            r.file_imports@ == Map::<Seq<char>, Set<Seq<char>>>::empty(),
            r.suns@.len() == 0,
            !r.transparent,
            r.validator is None,
            r.validator_with_ext is None,
            r.generic_types@.len() == 0,
            r.generic_params@.len() == 0,
    {
        UnifiedProtoConfig {
            proto_path: None,
            rpc_server: false,
            rpc_client: false,
            rpc_package: None,
            import_all_from: None,
            type_imports: ImportMap::new(),
            file_imports: ImportMap::new(),
            suns: Vec::new(),
            transparent: false,
            validator: None,
            validator_with_ext: None,
            generic_types: Vec::new(),
            generic_params: Vec::new(),
        }
    }
}

/// The message names of the item: its own name without suns, otherwise the names of its suns.
pub open spec fn message_names_spec(suns: Seq<SunConfig>, fallback: Seq<char>) -> Seq<Seq<char>> {
    if suns.len() == 0 {
        seq![fallback]
    } else {
        suns.map_values(|s: SunConfig| s.message_ident@)
    }
}

impl UnifiedProtoConfig {
    /// The `.proto` file path, if one was given.
    pub fn proto_path(&self) -> (r: Option<&str>)
        ensures
            match r {
                Some(s) => self.proto_path matches Some(p) && s@ == p@,
                None => self.proto_path is None,
            },
    {
        match &self.proto_path {
            Some(p) => Some(p.as_str()),
            None => None,
        }
    }

    /// The RPC package name; the configuration must name one.
    pub fn get_rpc_package(&self) -> (r: &str)
        requires
            self.rpc_package is Some,
        ensures
            r@ == self.rpc_package->Some_0@,
    {
        self.rpc_package.as_ref().unwrap().as_str()
    }

    pub fn has_suns(&self) -> (r: bool)
        ensures
            r == (self.suns@.len() > 0),
    {
        self.suns.len() > 0
    }

    /// The names of the messages the item is derived as (see `message_names_spec`).
    pub fn proto_message_names(&self, fallback: &str) -> (r: Vec<String>)
        ensures
            views(r@) == message_names_spec(self.suns@, fallback@),
    {
        let mut r: Vec<String> = Vec::new();
        if self.suns.len() == 0 {
            r.push(string_of(fallback));
            assert(views(r@) =~= seq![fallback@]);
            return r;
        }
        let n = self.suns.len();
        let mut i: usize = 0;
        while i < n
            invariant
                n == self.suns@.len(),
                i <= n,
                r@.len() == i,
                forall|k: int| 0 <= k < i ==> (#[trigger] r@[k])@ == self.suns@[k].message_ident@,
            decreases n - i,
        {
            r.push(self.suns[i].message_ident.clone());
            i = i + 1;
        }
        assert(views(r@) =~= message_names_spec(self.suns@, fallback@));
        r
    }

    /// The concrete instantiations of the item for its `generic_types` (see
    /// `generic_variants_spec`).
    pub fn generic_type_variants(&self) -> (r: Result<Vec<GenericTypeVariant>, GenericVariantsError>)
        ensures
            match r {
                Ok(v) => generic_variants_spec(self.generic_types@, views(self.generic_params@))
                    == Ok::<_, GenericVariantsError>(variants_view(v@)),
                Err(e) => generic_variants_spec(self.generic_types@, views(self.generic_params@))
                    == Err::<Seq<(Seq<char>, Seq<(Seq<char>, int, nat)>)>, _>(e),
            },
            r matches Ok(v) ==> forall|j: int|
                0 <= j < v@.len() ==> crate::subst::subs_valid(
                    self.generic_types@,
                    #[trigger] v@[j].substitutions@,
                ),
    {
        generic_type_variants(&self.generic_types, &self.generic_params)
    }

    /// Adds a `sun` type.
    fn push_sun(&mut self, ty: &RustType)
        requires
            sun_ok(*ty),
        ensures
            final(self).suns@.len() == old(self).suns@.len() + 1,
            forall|k: int| 0 <= k < old(self).suns@.len() ==> final(self).suns@[k] == old(self).suns@[k],
            sun_rel(final(self).suns@.last(), *ty),
            final(self).proto_path == old(self).proto_path,
            final(self).rpc_server == old(self).rpc_server,
            final(self).rpc_client == old(self).rpc_client,
            final(self).rpc_package == old(self).rpc_package,
            final(self).import_all_from == old(self).import_all_from,
            final(self).type_imports == old(self).type_imports,
            final(self).file_imports == old(self).file_imports,
            final(self).transparent == old(self).transparent,
            final(self).validator == old(self).validator,
            final(self).validator_with_ext == old(self).validator_with_ext,
            final(self).generic_types == old(self).generic_types,
            final(self).generic_params == old(self).generic_params,
    {
        let by_ref = is_reference_sun(ty);
        let normalized = normalize_sun_type(ty);
        let message_ident = extract_type_ident(normalized).unwrap();
        let copied = copy_type(normalized);
        self.suns.push(SunConfig { ty: copied, message_ident, by_ref });
    }
}

/// The options of the macro attribute, other than `sun`, as plain values.
pub struct ParamState {
    pub transparent: bool,
    pub proto_path: Option<Seq<char>>,
    pub rpc_server: bool,
    pub rpc_client: bool,
    pub rpc_package: Option<Seq<char>>,
    pub import_all_from: Option<Seq<char>>,
}

pub open spec fn param_state(c: UnifiedProtoConfig) -> ParamState {
    ParamState {
        transparent: c.transparent,
        proto_path: opt_string(c.proto_path),
        rpc_server: c.rpc_server,
        rpc_client: c.rpc_client,
        rpc_package: opt_string(c.rpc_package),
        import_all_from: opt_string(c.import_all_from),
    }
}

/// The package named by a nested option of `proto_import_all_from(...)`: its identifier, or its
/// path as a package.
pub open spec fn nested_package(m: MetaItem) -> Seq<char> {
    if m.path@.len() == 1 {
        m.path@[0]@
    } else {
        proto_package_spec(views(m.path@))
    }
}

/// A `proto_import_all_from` option that can be read: a list of bare paths, `= "package"`,
/// `= path`, or nothing.
pub open spec fn import_all_option_ok(v: MetaValue) -> bool {
    match v {
        MetaValue::Flag => true,
        MetaValue::List(nested) => forall|k: int|
            0 <= k < nested@.len() ==> (#[trigger] nested@[k]).value is Flag,
        MetaValue::Eq(e) => match e.expr {
            Some(MetaExpr::Str(_)) => true,
            Some(MetaExpr::Path(_)) => true,
            _ => false,
        },
        MetaValue::Malformed => false,
    }
}

/// The types a `sun` option gives: a bracketed list, or a single type.
pub open spec fn sun_types(v: MetaValue) -> Seq<RustType> {
    match v {
        MetaValue::Eq(e) => if e.bracketed {
            match e.types {
                Some(ts) => ts@,
                None => Seq::empty(),
            }
        } else {
            match e.ty {
                Some(t) => seq![t],
                None => Seq::empty(),
            }
        },
        _ => Seq::empty(),
    }
}

/// A `sun` option that can be read: the value is a type, or a bracketed list of types, each of
/// which names a message.
pub open spec fn sun_option_ok(v: MetaValue) -> bool {
    &&& (match v {
        MetaValue::Eq(e) => if e.bracketed {
            e.types is Some
        } else {
            e.ty is Some
        },
        _ => false,
    })
    &&& forall|k: int| 0 <= k < sun_types(v).len() ==> sun_ok(#[trigger] sun_types(v)[k])
}

/// An option of the macro attribute that can be read.
pub open spec fn param_ok(m: MetaItem) -> bool {
    let p = m.path@;
    if path_is(p, "transparent"@) {
        m.value is Flag
    } else if path_is(p, "proto_path"@) {
        eq_expr(m.value) matches Some(MetaExpr::Str(_))
    } else if path_is(p, "sun"@) {
        sun_option_ok(m.value)
    } else if path_is(p, "rpc_server"@) {
        eq_expr(m.value) matches Some(MetaExpr::Bool(_))
    } else if path_is(p, "rpc_client"@) {
        eq_expr(m.value) matches Some(MetaExpr::Bool(_))
    } else if path_is(p, "rpc_package"@) {
        eq_expr(m.value) matches Some(MetaExpr::Str(_))
    } else if path_is(p, "proto_import_all_from"@) {
        import_all_option_ok(m.value)
    } else {
        false
    }
}

pub open spec fn params_ok(items: Seq<MetaItem>) -> bool {
    forall|k: int| 0 <= k < items.len() ==> param_ok(#[trigger] items[k])
}

/// The package a `proto_import_all_from` option sets, if it sets one.
pub open spec fn import_all_option(v: MetaValue) -> Option<Seq<char>> {
    match v {
        MetaValue::List(nested) => if nested@.len() > 0 {
            Some(nested_package(nested@.last()))
        } else {
            None
        },
        MetaValue::Eq(e) => match e.expr {
            Some(MetaExpr::Str(s)) => Some(s@),
            Some(MetaExpr::Path(segs)) => Some(proto_package_spec(views(segs@))),
            _ => None,
        },
        _ => None,
    }
}

/// The options after one option of the macro attribute.
pub open spec fn param_step(s: ParamState, m: MetaItem) -> ParamState {
    let p = m.path@;
    if path_is(p, "transparent"@) {
        ParamState { transparent: true, ..s }
    } else if path_is(p, "proto_path"@) {
        match eq_expr(m.value) {
            Some(MetaExpr::Str(v)) => ParamState { proto_path: Some(v@), ..s },
            _ => s,
        }
    } else if path_is(p, "sun"@) {
        s
    } else if path_is(p, "rpc_server"@) {
        match eq_expr(m.value) {
            Some(MetaExpr::Bool(b)) => ParamState { rpc_server: b, ..s },
            _ => s,
        }
    } else if path_is(p, "rpc_client"@) {
        match eq_expr(m.value) {
            Some(MetaExpr::Bool(b)) => ParamState { rpc_client: b, ..s },
            _ => s,
        }
    } else if path_is(p, "rpc_package"@) {
        match eq_expr(m.value) {
            Some(MetaExpr::Str(v)) => ParamState { rpc_package: Some(v@), ..s },
            _ => s,
        }
    } else if path_is(p, "proto_import_all_from"@) {
        match import_all_option(m.value) {
            Some(pkg) => ParamState { import_all_from: Some(pkg), ..s },
            None => s,
        }
    } else {
        s
    }
}

pub open spec fn params_spec(s: ParamState, items: Seq<MetaItem>) -> ParamState
    decreases items.len(),
{
    if items.len() == 0 {
        s
    } else {
        param_step(params_spec(s, items.drop_last()), items.last())
    }
}

/// The `sun` types of the macro attribute's options, in order.
pub open spec fn params_suns(items: Seq<MetaItem>) -> Seq<RustType>
    decreases items.len(),
{
    if items.len() == 0 {
        Seq::empty()
    } else {
        params_suns(items.drop_last()) + if path_is(items.last().path@, "sun"@) {
            sun_types(items.last().value)
        } else {
            Seq::empty()
        }
    }
}

/// The suns extend the old ones by one sun for each type, in order.
pub open spec fn suns_extended(old_suns: Seq<SunConfig>, new_suns: Seq<SunConfig>, ts: Seq<RustType>) -> bool {
    &&& new_suns.len() == old_suns.len() + ts.len()
    &&& forall|k: int| 0 <= k < old_suns.len() ==> new_suns[k] == old_suns[k]
    &&& forall|k: int| 0 <= k < ts.len() ==> sun_rel(#[trigger] new_suns[old_suns.len() + k], ts[k])
}

/// `sun` is none of the other option names.
proof fn lemma_sun_name_distinct()
    ensures
        "sun"@ != "transparent"@,
        "sun"@ != "proto_path"@,
        "sun"@ != "rpc_server"@,
        "sun"@ != "rpc_client"@,
        "sun"@ != "rpc_package"@,
        "sun"@ != "proto_import_all_from"@,
{
    reveal_strlit("sun");
    reveal_strlit("transparent");
    reveal_strlit("proto_path");
    reveal_strlit("rpc_server");
    reveal_strlit("rpc_client");
    reveal_strlit("rpc_package");
    reveal_strlit("proto_import_all_from");
    assert("sun"@.len() == 3);
    assert("transparent"@.len() == 11);
    assert("proto_path"@.len() == 10);
    assert("rpc_server"@.len() == 10);
    assert("rpc_client"@.len() == 10);
    assert("rpc_package"@.len() == 11);
    assert("proto_import_all_from"@.len() == 21);
}

/// Whether the options of the macro attribute can be read (see `params_ok`).
pub fn attr_params_readable(items: &Vec<MetaItem>) -> (r: bool)
    ensures
        r == params_ok(items@),
{
    let n = items.len();
    let mut i: usize = 0;
    while i < n
        invariant
            n == items@.len(),
            i <= n,
            forall|k: int| 0 <= k < i ==> param_ok(#[trigger] items@[k]),
        decreases n - i,
    {
        if !param_readable(&items[i]) {
            assert(!param_ok(items@[i as int]));
            return false;
        }
        i = i + 1;
    }
    true
}

#[verifier::loop_isolation(false)]
fn sun_readable(v: &MetaValue) -> (r: bool)
    ensures
        r == sun_option_ok(*v),
{
    match v {
        MetaValue::Eq(e) => {
            if e.bracketed {
                match &e.types {
                    Some(ts) => {
                        let n = ts.len();
                        let mut k: usize = 0;
                        while k < n
                            invariant
                                n == ts@.len(),
                                k <= n,
                                sun_types(*v) == ts@,
                                forall|j: int| 0 <= j < k ==> sun_ok(#[trigger] ts@[j]),
                            decreases n - k,
                        {
                            if extract_type_ident(normalize_sun_type(&ts[k])).is_none() {
                                assert(!sun_ok(ts@[k as int]));
                                return false;
                            }
                            k = k + 1;
                        }
                        true
                    },
                    None => false,
                }
            } else {
                match &e.ty {
                    Some(t) => {
                        assert(sun_types(*v) =~= seq![*t]);
                        let ok = extract_type_ident(normalize_sun_type(t)).is_some();
                        assert(ok == sun_ok(sun_types(*v)[0]));
                        ok
                    },
                    None => false,
                }
            }
        },
        _ => false,
    }
}

#[verifier::loop_isolation(false)]
fn param_readable(m: &MetaItem) -> (r: bool)
    ensures
        r == param_ok(*m),
{
    let p = &m.path;
    if path_is_ident(p, "transparent") {
        matches!(m.value, MetaValue::Flag)
    } else if path_is_ident(p, "proto_path") {
        match &m.value {
            MetaValue::Eq(e) => matches!(e.expr, Some(MetaExpr::Str(_))),
            _ => false,
        }
    } else if path_is_ident(p, "sun") {
        sun_readable(&m.value)
    } else if path_is_ident(p, "rpc_server") {
        match &m.value {
            MetaValue::Eq(e) => matches!(e.expr, Some(MetaExpr::Bool(_))),
            _ => false,
        }
    } else if path_is_ident(p, "rpc_client") {
        match &m.value {
            MetaValue::Eq(e) => matches!(e.expr, Some(MetaExpr::Bool(_))),
            _ => false,
        }
    } else if path_is_ident(p, "rpc_package") {
        match &m.value {
            MetaValue::Eq(e) => matches!(e.expr, Some(MetaExpr::Str(_))),
            _ => false,
        }
    } else if path_is_ident(p, "proto_import_all_from") {
        match &m.value {
            MetaValue::Flag => true,
            MetaValue::List(nested) => {
                let n = nested.len();
                let mut k: usize = 0;
                while k < n
                    invariant
                        n == nested@.len(),
                        k <= n,
                        forall|j: int| 0 <= j < k ==> (#[trigger] nested@[j]).value is Flag,
                    decreases n - k,
                {
                    if !matches!(nested[k].value, MetaValue::Flag) {
                        assert(!(nested@[k as int].value is Flag));
                        return false;
                    }
                    k = k + 1;
                }
                true
            },
            MetaValue::Eq(e) => match &e.expr {
                Some(MetaExpr::Str(_)) => true,
                Some(MetaExpr::Path(_)) => true,
                _ => false,
            },
            MetaValue::Malformed => false,
        }
    } else {
        false
    }
}

/// The package set by a `proto_import_all_from` option (see `import_all_option`).
fn import_all_option_of(v: &MetaValue) -> (r: Option<String>)
    ensures
        opt_string(r) == import_all_option(*v),
{
    match v {
        MetaValue::List(nested) => {
            let n = nested.len();
            if n == 0 {
                return None;
            }
            let last = &nested[n - 1];
            if last.path.len() == 1 {
                Some(last.path[0].clone())
            } else {
                Some(path_to_proto_package(&last.path))
            }
        },
        MetaValue::Eq(e) => match &e.expr {
            Some(MetaExpr::Str(s)) => Some(s.clone()),
            Some(MetaExpr::Path(segs)) => Some(path_to_proto_package(segs)),
            _ => None,
        },
        _ => None,
    }
}

/// Applies the options of the macro attribute, in order (see `param_step` and `params_suns`).
pub fn parse_attr_params(items: &Vec<MetaItem>, config: &mut UnifiedProtoConfig)
    requires
        params_ok(items@),
    ensures
        param_state(*final(config)) == params_spec(param_state(*old(config)), items@),
        suns_extended(old(config).suns@, final(config).suns@, params_suns(items@)),
        final(config).type_imports == old(config).type_imports,
        final(config).file_imports == old(config).file_imports,
        final(config).validator == old(config).validator,
        final(config).validator_with_ext == old(config).validator_with_ext,
        final(config).generic_types == old(config).generic_types,
        final(config).generic_params == old(config).generic_params,
{
    let ghost start = param_state(*config);
    let ghost start_suns = config.suns@;
    let n = items.len();
    let mut i: usize = 0;
    assert(items@.take(0) =~= Seq::<MetaItem>::empty());
    assert(params_suns(items@.take(0)) =~= Seq::<RustType>::empty());
    while i < n
        invariant
            n == items@.len(),
            i <= n,
            params_ok(items@),
            param_state(*config) == params_spec(start, items@.take(i as int)),
            suns_extended(start_suns, config.suns@, params_suns(items@.take(i as int))),
            config.type_imports == old(config).type_imports,
            config.file_imports == old(config).file_imports,
            config.validator == old(config).validator,
            config.validator_with_ext == old(config).validator_with_ext,
            config.generic_types == old(config).generic_types,
            config.generic_params == old(config).generic_params,
        decreases n - i,
    {
        let ghost q = items@.take(i + 1);
        assert(q.drop_last() =~= items@.take(i as int));
        assert(q.last() == items@[i as int]);
        assert(param_ok(items@[i as int]));
        let item = &items[i];
        let p = &item.path;
        let ghost before = param_state(*config);
        let ghost suns_before = config.suns@;
        let ghost pushed = params_suns(items@.take(i as int));
        if path_is_ident(p, "transparent") {
            config.transparent = true;
        } else if path_is_ident(p, "proto_path") {
            if let MetaValue::Eq(e) = &item.value {
                if let Some(MetaExpr::Str(s)) = &e.expr {
                    config.proto_path = Some(s.clone());
                }
            }
        } else if path_is_ident(p, "sun") {
            if let MetaValue::Eq(e) = &item.value {
                if e.bracketed {
                    if let Some(ts) = &e.types {
                        let m = ts.len();
                        let mut k: usize = 0;
                        while k < m
                            invariant
                                m == ts@.len(),
                                k <= m,
                                sun_types(item.value) == ts@,
                                sun_option_ok(item.value),
                                suns_before.len() == start_suns.len() + pushed.len(),
                                config.suns@.len() == suns_before.len() + k,
                                forall|j: int| 0 <= j < suns_before.len() ==> config.suns@[j] == suns_before[j],
                                forall|j: int| 0 <= j < k ==> sun_rel(#[trigger] config.suns@[suns_before.len() + j], ts@[j]),
                                param_state(*config) == before,
                                config.type_imports == old(config).type_imports,
                                config.file_imports == old(config).file_imports,
                                config.validator == old(config).validator,
                                config.validator_with_ext == old(config).validator_with_ext,
                                config.generic_types == old(config).generic_types,
                                config.generic_params == old(config).generic_params,
                            decreases m - k,
                        {
                            assert(sun_ok(sun_types(item.value)[k as int]));
                            config.push_sun(&ts[k]);
                            proof {
                                assert forall|j: int| 0 <= j < k + 1 implies sun_rel(
                                    #[trigger] config.suns@[suns_before.len() + j],
                                    ts@[j],
                                ) by {
                                    if j == k {
                                        assert(config.suns@[suns_before.len() + j] == config.suns@.last());
                                    }
                                }
                            }
                            k = k + 1;
                        }
                    }
                } else if let Some(t) = &e.ty {
                    assert(sun_types(item.value) =~= seq![*t]);
                    assert(sun_ok(sun_types(item.value)[0]));
                    config.push_sun(t);
                }
            }
        } else if path_is_ident(p, "rpc_server") {
            if let MetaValue::Eq(e) = &item.value {
                if let Some(MetaExpr::Bool(b)) = &e.expr {
                    config.rpc_server = *b;
                }
            }
        } else if path_is_ident(p, "rpc_client") {
            if let MetaValue::Eq(e) = &item.value {
                if let Some(MetaExpr::Bool(b)) = &e.expr {
                    config.rpc_client = *b;
                }
            }
        } else if path_is_ident(p, "rpc_package") {
            if let MetaValue::Eq(e) = &item.value {
                if let Some(MetaExpr::Str(s)) = &e.expr {
                    config.rpc_package = Some(s.clone());
                }
            }
        } else if path_is_ident(p, "proto_import_all_from") {
            if let Some(pkg) = import_all_option_of(&item.value) {
                config.import_all_from = Some(pkg);
            }
        }
        proof {
            lemma_sun_name_distinct();
            let added = if path_is(items@[i as int].path@, "sun"@) {
                sun_types(items@[i as int].value)
            } else {
                Seq::empty()
            };
            assert(params_suns(q) =~= pushed + added);
            assert(config.suns@.len() == suns_before.len() + added.len());
            assert(forall|j: int| 0 <= j < suns_before.len() ==> config.suns@[j] == suns_before[j]);
            assert(forall|j: int| 0 <= j < added.len() ==> sun_rel(#[trigger] config.suns@[suns_before.len() + j], added[j]));
            assert(param_state(*config) == param_step(before, items@[i as int]));
            assert forall|j: int| 0 <= j < pushed.len() + added.len() implies sun_rel(
                #[trigger] config.suns@[start_suns.len() + j],
                (pushed + added)[j],
            ) by {
                if j < pushed.len() {
                    assert(config.suns@[start_suns.len() + j] == suns_before[start_suns.len() + j]);
                } else {
                    let jj = j - pushed.len();
                    assert(start_suns.len() + j == suns_before.len() + jj);
                }
            }
        }
        i = i + 1;
    }
    assert(items@.take(n as int) =~= items@);
}

proof fn lemma_single_to_set(x: Seq<char>)
    ensures
        seq![x].to_set() == set![x],
{
    assert(seq![x] =~= Seq::<Seq<char>>::empty().push(x));
    Seq::<Seq<char>>::empty().lemma_push_to_set_commute(x);
    assert(Seq::<Seq<char>>::empty().to_set() =~= Set::<Seq<char>>::empty());
    assert(set![x] =~= Set::<Seq<char>>::empty().insert(x));
}

/// The options of a configuration with none given.
pub open spec fn default_params() -> ParamState {
    ParamState {
        transparent: false,
        proto_path: None,
        rpc_server: false,
        rpc_client: false,
        rpc_package: None,
        import_all_from: None,
    }
}

/// The packages a `.proto` file imports: with a file path, every package types are imported
/// from and the package everything is imported from; nothing without a file path.
pub open spec fn file_imports_spec(
    proto_path: Option<Seq<char>>,
    packages: Set<Seq<char>>,
    import_all_from: Option<Seq<char>>,
) -> Map<Seq<char>, Set<Seq<char>>> {
    let all = match import_all_from {
        Some(p) => packages.insert(p),
        None => packages,
    };
    match proto_path {
        Some(path) => if all == Set::<Seq<char>>::empty() {
            Map::empty()
        } else {
            Map::empty().insert(path, all)
        },
        None => Map::empty(),
    }
}

impl UnifiedProtoConfig {
    /// Reads the configuration of a derivation from the macro attribute's options, the item's own
    /// attributes, its fields and its type parameters.
    pub fn from_attributes<F: ParseFieldAttr>(
        attr: &Vec<MetaItem>,
        item_attrs: &Vec<AttrModel>,
        fields: &F,
        generic_params: Vec<String>,
    ) -> (r: UnifiedProtoConfig)
        requires
            params_ok(attr@),
            validator_attrs_ok(item_attrs@),
            generic_attrs_ok(item_attrs@),
        ensures
            r.wf(),
            ({
                let ps = params_spec(default_params(), attr@);
                &&& r.transparent == ps.transparent
                &&& opt_string(r.proto_path) == ps.proto_path
                &&& r.rpc_server == ps.rpc_server
                &&& r.rpc_client == ps.rpc_client
                &&& opt_string(r.rpc_package) == ps.rpc_package
                &&& opt_string(r.import_all_from) == (if ps.import_all_from is Some {
                    ps.import_all_from
                } else {
                    import_all_from_spec(item_attrs@)
                })
            }),
            suns_extended(Seq::empty(), r.suns@, params_suns(attr@)),
            r.generic_params == generic_params,
            (opt_string(r.validator), opt_string(r.validator_with_ext)) == validators_spec(
                item_attrs@,
            ),
            entries_match(r.generic_types@, generic_entries_spec(item_attrs@)),
            r.type_imports@ == union_imports(item_imports_spec(item_attrs@), fields.declared_imports()),
            r.file_imports@ == file_imports_spec(
                opt_string(r.proto_path),
                r.type_imports@.dom(),
                opt_string(r.import_all_from),
            ),
    {
        let mut config = UnifiedProtoConfig::default();
        assert(param_state(config) == default_params());
        if attr.len() > 0 {
            parse_attr_params(attr, &mut config);
        } else {
            assert(attr@ =~= Seq::<MetaItem>::empty());
            assert(params_suns(attr@) =~= Seq::<RustType>::empty());
        }
        config.generic_params = generic_params;
        let validators = extract_item_validators(item_attrs);
        config.validator = validators.validator;
        config.validator_with_ext = validators.validator_with_ext;
        config.generic_types = extract_item_generic_types(item_attrs);
        let mut all_imports = extract_item_imports(item_attrs);
        if config.import_all_from.is_none() {
            config.import_all_from = extract_import_all_from(item_attrs);
        }
        fields.extract_field_imports(&mut all_imports);
        let ghost pkgs = all_imports@.dom();
        match &config.proto_path {
            Some(path) => {
                let packages = all_imports.packages();
                proof {
                    all_imports.lemma_keys();
                }
                let mut files = ImportMap::new();
                let n = packages.len();
                let mut i: usize = 0;
                while i < n
                    invariant
                        n == packages@.len(),
                        i <= n,
                        files.wf(),
                        files@ == (if i == 0 {
                            Map::<Seq<char>, Set<Seq<char>>>::empty()
                        } else {
                            Map::empty().insert(path@, views(packages@).take(i as int).to_set())
                        }),
                    decreases n - i,
                {
                    let mut one: Vec<String> = Vec::new();
                    one.push(packages[i].clone());
                    files.extend(path.clone(), &one);
                    proof {
                        assert(views(one@) =~= seq![packages@[i as int]@]);
                        let t = views(packages@).take(i + 1);
                        assert(t =~= views(packages@).take(i as int).push(packages@[i as int]@));
                        let x = packages@[i as int]@;
                        views(packages@).take(i as int).lemma_push_to_set_commute(x);
                        lemma_single_to_set(x);
                        if i == 0 {
                            assert(views(packages@).take(0).to_set() =~= Set::<Seq<char>>::empty());
                            assert(Set::<Seq<char>>::empty().union(set![x]) =~= t.to_set());
                        } else {
                            assert(views(packages@).take(i as int).to_set().union(set![x]) =~= t.to_set());
                        }
                        assert(files@ =~= Map::empty().insert(path@, t.to_set()));
                    }
                    i = i + 1;
                }
                proof {
                    assert(views(packages@).take(n as int) =~= views(packages@));
                    if n == 0 {
                        assert(pkgs =~= Set::<Seq<char>>::empty());
                    } else {
                        assert(pkgs.contains(views(packages@)[0]));
                    }
                }
                match &config.import_all_from {
                    Some(all) => {
                        let mut one: Vec<String> = Vec::new();
                        one.push(all.clone());
                        files.extend(path.clone(), &one);
                        proof {
                            assert(views(one@) =~= seq![all@]);
                            lemma_single_to_set(all@);
                            assert(pkgs.insert(all@).contains(all@));
                            if n == 0 {
                                assert(Set::<Seq<char>>::empty().union(set![all@]) =~= pkgs.insert(all@));
                                assert(files@ =~= Map::empty().insert(path@, pkgs.insert(all@)));
                            } else {
                                assert(pkgs.union(set![all@]) =~= pkgs.insert(all@));
                                assert(files@ =~= Map::empty().insert(path@, pkgs.insert(all@)));
                            }
                        }
                    },
                    None => {},
                }
                config.file_imports = files;
            },
            None => {},
        }
        config.type_imports = all_imports;
        config
    }
}

} // verus!
