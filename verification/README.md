# luau_fields

Generates Luau source text for the fields of protobuf messages: their types and
defaults, and the statements that write them to bytes and to JSON and read them back.
The generators are verified with Verus.

- `src/descriptor.rs`: what a descriptor file declares of one field.
- `src/generator.rs`: what files export to one another, and the file that code is
  generated for.
- `src/instructions.rs`, `src/decode.rs`: the text for one value of a field.
- `src/fields.rs`, `src/json.rs`: the generators for fields and oneofs.
- `src/string_builder.rs`, `src/if_builder.rs`, `src/text.rs`: source text.
- `src/laws.rs`, `src/occurrences.rs`, `src/blocks.rs`: what holds of the generated code as a whole.
- `app/`: takes descriptors of the crate `prost_types` and runs the generators.
