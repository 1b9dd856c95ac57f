# prosto_derive

The decisions behind the `proto_message` / `proto_dump` derive macros, verified with Verus:
how Rust types and fields map to protobuf types, how tags and enum values are assigned, how
generic types are instantiated, which options an item's attributes set, the `.proto`
definitions that come out, and the code that encodes and decodes each field and variant.

- `src/` is the verified library. It works on a model of the Rust syntax the macros read
  (`types`, `model`, `meta`): types and path segments, fields with their options, enum
  variants, attributes and their options.
  - `text`, `order`: names in each case, number text, string order.
  - `types`, `proto_type`, `field`, `field_types`: the protobuf type of a Rust type and the
    conversions a field needs.
  - `tags`, `enums`: field and variant tags, enum discriminants.
  - `emit`, `definitions`: `message`, `enum` and `service` definitions, one per message name and
    instantiation.
  - `generics`, `subst`, `type_params`: instantiations of generic types, substitution of their
    parameters, the parameters a type mentions.
  - `meta`, `config`, `field_options`, `unified`, `proto_config`, `imports`, `import_map`,
    `string_set`: reading item and field options and imports.
  - `impl_code`, `struct_code`: the trait impls of structs (with their shadow types), of
    transparent structs, of plain enums and of `oneof` enums.
  - `field_code`, `variant_code`: the Rust code, as text, that binds, converts, decodes,
    defaults and clears message fields, and the match arms of each `oneof` variant; paths and
    expressions given in field options are checked to read as code before they are spliced in.
  - `enum_fields`: typed access to enumeration values kept as `i32` codes.
- `app/` reads items with `syn` into that model, writes `.proto` files, and parses the library's
  impls (`impl_code`, built from `struct_code`, `field_code` and `variant_code`) into tokens.
- `tests/` runs the library on concrete inputs.
