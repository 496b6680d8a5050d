//! The JSON form of the fields of a message.
use crate::descriptor::{FieldDescriptor, FieldModel};
use crate::fields::{field_models, FieldGenerator, FieldKind, GeneratorModel, KindModel};
use crate::if_builder::{if_statement, BranchModel, IfBuilder};
use crate::instructions::{
    json_decode_instruction_field_descriptor_ignore_repeated, json_encode_instruction_field_descriptor_ignore_repeated,
    type_definition_of_field_descriptor,
};
use crate::instructions::{json_decode_text, json_encode_text, nameable, value_type};
use crate::string_builder::{line, PieceModel, StringBuilder};
use crate::text::texts;
use vstd::prelude::*;

verus! {

/// A name in lower camel case, as the crate `heck` writes it.
pub uninterp spec fn lower_camel_case_name(name: Seq<char>) -> Seq<char>;

/// `heck::AsLowerCamelCase`: what it displays for a name depends on the name alone.
#[verifier::external_body]
fn lower_camel_case(name: &str) -> (res: String)
    ensures
        res@ == lower_camel_case_name(name@),
{
    heck::AsLowerCamelCase(name).to_string()
}

/// The names of fields in JSON.
pub open spec fn json_names(fields: Seq<FieldModel>) -> Seq<Seq<char>> {
    fields.map_values(|field: FieldModel| lower_camel_case_name(field.name))
}

impl GeneratorModel {
    /// The statement that makes an empty map or list of the type of the field.
    pub open spec fn new_output(self) -> Seq<char> {
        "local newOutput: "@ + self.full_type() + " = {}"@
    }

    /// The branch of a oneof for one of its fields.
    pub open spec fn json_encode_branch(self, field: FieldModel, output: Seq<char>) -> BranchModel {
        BranchModel {
            condition: self.this() + ".type == \""@ + field.name + "\""@,
            statement: output + " = "@ + json_encode_text(field, self.scope, self.this() + ".value"@),
        }
    }

    /// The statements that put the JSON form of the field, which is not its default, into
    /// `output`.
    pub open spec fn json_encode_body(self, output: Seq<char>) -> Seq<PieceModel> {
        match self.kind {
            KindModel::Single(field) => match self.map_type() {
                Some(map) => seq![
                    line(self.new_output()),
                    line(self.map_loop(map)),
                    line(
                        "newOutput["@ + json_encode_text(map.key, self.scope, "key"@) + "] = "@ + json_encode_text(
                            map.value,
                            self.scope,
                            "value"@,
                        ),
                    ),
                    line("end"@),
                    line(output + " = newOutput"@),
                ],
                None => if field.repeated() {
                    seq![
                        line(self.new_output()),
                        line("for _, value: "@ + value_type(field, self.scope) + " in "@ + self.this() + " do"@),
                        line("table.insert(newOutput, "@ + json_encode_text(field, self.scope, "value"@) + ")"@),
                        line("end"@),
                        line(output + " = newOutput"@),
                    ]
                } else {
                    seq![line(output + " = "@ + json_encode_text(field, self.scope, self.this()))]
                },
            },
            KindModel::OneOf { fields, .. } => if_statement(
                fields.map_values(|field: FieldModel| self.json_encode_branch(field, output)),
            ),
        }
    }

    /// The statements that put the JSON form of the field into the output, under
    /// `json_name`.
    pub open spec fn json_encode_lines(self, json_name: Seq<char>) -> Seq<PieceModel> {
        self.guarded(self.json_encode_body("output."@ + json_name))
    }

    /// The statements that take one field from its JSON form, which stands in the input
    /// under `input_name`.
    pub open spec fn json_decode_body(self, field: FieldModel, input_name: Seq<char>) -> Seq<PieceModel> {
        match self.map_type() {
            Some(map) => seq![
                line(self.new_output()),
                line("for key, value in input."@ + input_name + " do"@),
                line(
                    "newOutput["@ + json_decode_text(map.key, self.scope, "key"@) + "] = "@ + json_decode_text(
                        map.value,
                        self.scope,
                        "value"@,
                    ),
                ),
                line("end"@),
                PieceModel::Blank,
                line("self."@ + field.name + " = newOutput"@),
            ],
            None => if field.repeated() {
                seq![
                    line(self.new_output()),
                    line("for _, value: "@ + value_type(field, self.scope) + " in input."@ + input_name + " do"@),
                    line("table.insert(newOutput, "@ + json_decode_text(field, self.scope, "value"@) + ")"@),
                    line("end"@),
                    PieceModel::Blank,
                    line("self."@ + field.name + " = newOutput"@),
                ]
            } else {
                let value = json_decode_text(field, self.scope, "input."@ + input_name);
                match self.kind {
                    KindModel::OneOf { name, .. } => seq![
                        line("self."@ + name + " = { type = \""@ + field.name + "\", value = "@ + value + " }"@),
                    ],
                    KindModel::Single(_) => seq![line("self."@ + field.name + " = "@ + value)],
                }
            },
        }
    }

    /// The statements that take one field from the input where it is there under
    /// `input_name`.
    pub open spec fn json_decode_block(self, field: FieldModel, input_name: Seq<char>) -> Seq<PieceModel> {
        seq![line("if input."@ + input_name + " ~= nil then"@)] + self.json_decode_body(field, input_name) + seq![
            line("end"@),
            PieceModel::Blank,
        ]
    }

    /// The statements that take one field from the input, under its own name and under
    /// its JSON name where that is another.
    pub open spec fn json_decode_field_lines(self, field: FieldModel, json_name: Seq<char>) -> Seq<PieceModel> {
        if field.name == json_name {
            self.json_decode_block(field, field.name)
        } else {
            self.json_decode_block(field, field.name) + self.json_decode_block(field, json_name)
        }
    }

    /// The statements that take the fields from the input, one after another.
    pub open spec fn json_decode_lines(self, json_names: Seq<Seq<char>>) -> Seq<PieceModel> {
        Seq::new(
            self.inner_fields().len(),
            |i: int| self.json_decode_field_lines(self.inner_fields()[i], json_names[i]),
        ).flatten()
    }
}

impl FieldGenerator<'_> {
    /// The statements that put the JSON form of the field into the output, under its name
    /// in lower camel case.
    pub fn json_encode(&self) -> (res: StringBuilder)
        requires
            self@.generatable(),
        ensures
            res@ == self@.json_encode_lines(lower_camel_case_name(self@.name())),
            res.depth_now() == 0,
    {
        self.json_encode_as(lower_camel_case(self.name()).as_str())
    }

    /// The statements that put the JSON form of the field into the output, under
    /// `json_name`.
    pub fn json_encode_as(&self, json_name: &str) -> (res: StringBuilder)
        requires
            self@.generatable(),
        ensures
            res@ == self@.json_encode_lines(json_name@),
            res.depth_now() == 0,
    {
        let this = self.this();
        let output = "output.".to_owned().concat(json_name);
        let mut json_encode = StringBuilder::new();
        proof {
            if self@.map_type() is None && self@.kind is Single {
                assert(nameable(self@.inner_fields()[0], self@.scope));
            }
        }
        json_encode.push("if ".to_owned().concat(self.should_encode().as_str()).concat(" then").as_str());

        match &self.field_kind {
            FieldKind::Single(field) => {
                if let Some(map_type) = self.map_type() {
                    json_encode.push(self.make_output().as_str());
                    json_encode.push(self.map_header(map_type).as_str());
                    json_encode.push(
                        "newOutput[".to_owned().concat(
                            json_encode_instruction_field_descriptor_ignore_repeated(
                                &map_type.key,
                                self.export_map,
                                self.base_file,
                                "key",
                            ).as_str(),
                        ).concat("] = ").concat(
                            json_encode_instruction_field_descriptor_ignore_repeated(
                                &map_type.value,
                                self.export_map,
                                self.base_file,
                                "value",
                            ).as_str(),
                        ).as_str(),
                    );
                    json_encode.push("end");
                    json_encode.push(output.concat(" = newOutput").as_str());
                } else if field.is_repeated() {
                    json_encode.push(self.make_output().as_str());
                    json_encode.push(
                        "for _, value: ".to_owned().concat(
                            type_definition_of_field_descriptor(field, self.export_map, self.base_file).as_str(),
                        ).concat(" in ").concat(this.as_str()).concat(" do").as_str(),
                    );
                    json_encode.push(
                        "table.insert(newOutput, ".to_owned().concat(
                            json_encode_instruction_field_descriptor_ignore_repeated(
                                field,
                                self.export_map,
                                self.base_file,
                                "value",
                            ).as_str(),
                        ).concat(")").as_str(),
                    );
                    json_encode.push("end");
                    json_encode.push(output.concat(" = newOutput").as_str());
                } else {
                    json_encode.push(
                        output.concat(" = ").concat(
                            json_encode_instruction_field_descriptor_ignore_repeated(
                                field,
                                self.export_map,
                                self.base_file,
                                this.as_str(),
                            ).as_str(),
                        ).as_str(),
                    );
                }
            },
            FieldKind::OneOf { fields, .. } => {
                let ghost models = field_models(fields@);
                let ghost generator = self@;
                let ghost all = models.map_values(
                    |field: FieldModel| generator.json_encode_branch(field, output@),
                );
                assert(self@.inner_fields() == models);
                let mut if_builder = IfBuilder::new();
                let mut i: usize = 0;
                assert(all.take(0) =~= Seq::<BranchModel>::empty());
                while i < fields.len()
                    invariant
                        i <= fields@.len(),
                        generator == self@,
                        this@ == generator.this(),
                        models == field_models(fields@),
                        forall|j: int| 0 <= j < models.len() ==> nameable(#[trigger] models[j], generator.scope),
                        all == models.map_values(
                            |field: FieldModel| generator.json_encode_branch(field, output@),
                        ),
                        if_builder@ == all.take(i as int),
                    decreases fields@.len() - i,
                {
                    let field = fields[i];
                    assert(models[i as int] == field@);
                    let condition = this.clone().concat(".type == \"").concat(field.name()).concat("\"");
                    let value = json_encode_instruction_field_descriptor_ignore_repeated(
                        field,
                        self.export_map,
                        self.base_file,
                        this.clone().concat(".value").as_str(),
                    );
                    let statement = output.clone().concat(" = ").concat(value.as_str());
                    if_builder.add_condition(condition.as_str(), statement.as_str());
                    assert(all.take(i + 1) =~= all.take(i as int).push(all[i as int]));
                    i += 1;
                }
                assert(all.take(i as int) =~= all);
                let mut statement = if_builder.into_string_builder();
                json_encode.append(&mut statement);
            },
        }

        json_encode.push("end");
        assert(json_encode@ =~= self@.json_encode_lines(json_name@));
        json_encode
    }

    /// The statement that makes an empty map or list of the type of the field.
    fn make_output(&self) -> (res: String)
        requires
            self@.generatable(),
        ensures
            res@ == self@.new_output(),
    {
        "local newOutput: ".to_owned().concat(self.type_definition().as_str()).concat(" = {}")
    }

    /// The statements that take the fields from their JSON forms, which stand in the input
    /// under their own names or under these in lower camel case.
    pub fn json_decode(&self) -> (res: StringBuilder)
        requires
            self@.generatable(),
        ensures
            res@ == self@.json_decode_lines(json_names(self@.inner_fields())),
            res.depth_now() == 0,
    {
        let fields = self.inner_fields();
        let ghost models = self@.inner_fields();
        let mut names: Vec<String> = Vec::new();
        let mut i: usize = 0;
        while i < fields.len()
            invariant
                i <= fields@.len(),
                models == field_models(fields@),
                texts(names@) == json_names(models).take(i as int),
            decreases fields@.len() - i,
        {
            let name = lower_camel_case(fields[i].name());
            proof {
                assert(models[i as int] == fields@[i as int]@);
                assert(json_names(models).take(i + 1) =~= json_names(models).take(i as int).push(name@));
                assert(texts(names@.push(name)) =~= texts(names@).push(name@));
            }
            names.push(name);
            i += 1;
        }
        assert(json_names(models).take(i as int) =~= json_names(models));
        assert(names@.len() == texts(names@).len());
        self.json_decode_as(&names)
    }

    /// The statements that take the fields from their JSON forms, which stand in the input
    /// under their own names or under `json_names`.
    pub fn json_decode_as(&self, json_names: &Vec<String>) -> (res: StringBuilder)
        requires
            self@.generatable(),
            json_names@.len() == self@.inner_fields().len(),
        ensures
            res@ == self@.json_decode_lines(texts(json_names@)),
            res.depth_now() == 0,
    {
        let fields = self.inner_fields();
        let ghost generator = self@;
        let ghost models = self@.inner_fields();
        let ghost all = Seq::new(
            models.len(),
            |i: int| generator.json_decode_field_lines(models[i], texts(json_names@)[i]),
        );
        let mut json_decode = StringBuilder::new();
        let mut i: usize = 0;
        assert(all.take(0) =~= Seq::<Seq<PieceModel>>::empty());
        while i < fields.len()
            invariant
                i <= fields@.len(),
                generator == self@,
                generator.generatable(),
                models == generator.inner_fields(),
                models == field_models(fields@),
                json_names@.len() == models.len(),
                all == Seq::new(
                    models.len(),
                    |i: int| generator.json_decode_field_lines(models[i], texts(json_names@)[i]),
                ),
                json_decode@ == all.take(i as int).flatten(),
                json_decode.depth_now() == 0,
            decreases fields@.len() - i,
        {
            let field = fields[i];
            let json_name = &json_names[i];
            assert(models[i as int] == field@);
            assert(texts(json_names@)[i as int] == json_name@);
            let real_name = field.name().to_owned();
            self.json_decode_name(&mut json_decode, field, real_name.as_str());
            if real_name != *json_name {
                self.json_decode_name(&mut json_decode, field, json_name.as_str());
            }
            proof {
                assert(all.take(i + 1) =~= all.take(i as int).push(all[i as int]));
                all.take(i as int).lemma_flatten_push(all[i as int]);
                assert(json_decode@ =~= all.take(i + 1).flatten());
            }
            i += 1;
        }
        assert(all.take(i as int) =~= all);
        json_decode
    }

    /// Adds the statements that take one field from the input where it is there under
    /// `input_name`.
    fn json_decode_name(&self, json_decode: &mut StringBuilder, field: &FieldDescriptor, input_name: &str)
        requires
            self@.generatable(),
            self@.inner_fields().contains(field@),
            old(json_decode).depth_now() == 0,
        ensures
            final(json_decode)@ == old(json_decode)@ + self@.json_decode_block(field@, input_name@),
            final(json_decode).depth_now() == 0,
    {
        let real_name = field.name();
        json_decode.push("if input.".to_owned().concat(input_name).concat(" ~= nil then").as_str());

        if let Some(map_info) = self.map_type() {
            json_decode.push(self.make_output().as_str());
            json_decode.push("for key, value in input.".to_owned().concat(input_name).concat(" do").as_str());
            json_decode.push(
                "newOutput[".to_owned().concat(
                    json_decode_instruction_field_descriptor_ignore_repeated(
                        &map_info.key,
                        self.export_map,
                        self.base_file,
                        "key",
                    ).as_str(),
                ).concat("] = ").concat(
                    json_decode_instruction_field_descriptor_ignore_repeated(
                        &map_info.value,
                        self.export_map,
                        self.base_file,
                        "value",
                    ).as_str(),
                ).as_str(),
            );
            json_decode.push("end");
            json_decode.blank();
            json_decode.push("self.".to_owned().concat(real_name).concat(" = newOutput").as_str());
        } else if field.is_repeated() {
            json_decode.push(self.make_output().as_str());
            json_decode.push(
                "for _, value: ".to_owned().concat(
                    type_definition_of_field_descriptor(field, self.export_map, self.base_file).as_str(),
                ).concat(" in input.").concat(input_name).concat(" do").as_str(),
            );
            json_decode.push(
                "table.insert(newOutput, ".to_owned().concat(
                    json_decode_instruction_field_descriptor_ignore_repeated(
                        field,
                        self.export_map,
                        self.base_file,
                        "value",
                    ).as_str(),
                ).concat(")").as_str(),
            );
            json_decode.push("end");
            json_decode.blank();
            json_decode.push("self.".to_owned().concat(real_name).concat(" = newOutput").as_str());
        } else {
            let instruction = json_decode_instruction_field_descriptor_ignore_repeated(
                field,
                self.export_map,
                self.base_file,
                "input.".to_owned().concat(input_name).as_str(),
            );
            match &self.field_kind {
                FieldKind::OneOf { name, .. } => {
                    json_decode.push(
                        "self.".to_owned().concat(name.as_str()).concat(" = { type = \"").concat(real_name).concat(
                            "\", value = ",
                        ).concat(instruction.as_str()).concat(" }").as_str(),
                    );
                },
                FieldKind::Single(_) => {
                    json_decode.push(
                        "self.".to_owned().concat(real_name).concat(" = ").concat(instruction.as_str()).as_str(),
                    );
                },
            }
        }

        json_decode.push("end");
        json_decode.blank();
        assert(json_decode@ =~= old(json_decode)@ + self@.json_decode_block(field@, input_name@));
    }
}

} // verus!
