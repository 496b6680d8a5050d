//! The blocks of the generated code are closed where they were opened.
use crate::descriptor::FieldModel;
use crate::fields::{encode_part_text, GeneratorModel, KindModel};
use crate::generator::MapModel;
use crate::if_builder::{branch_lines, if_statement, BranchModel};
use crate::instructions::{encode_text, Scope};
use crate::string_builder::{line, PieceModel};
use crate::text::replaced;
use vstd::prelude::*;

verus! {

/// Whether a piece starts an `if` or `for` statement.
pub open spec fn opens(piece: PieceModel) -> bool {
    piece matches PieceModel::Text { text, .. } && ("if "@.is_prefix_of(text) || "for "@.is_prefix_of(text))
}

/// Whether a piece ends such a statement.
pub open spec fn closes(piece: PieceModel) -> bool {
    piece matches PieceModel::Text { text, .. } && text == "end"@
}

/// What a piece adds to the number of open statements.
pub open spec fn step(piece: PieceModel) -> int {
    if opens(piece) {
        1
    } else if closes(piece) {
        -1
    } else {
        0
    }
}

/// The number of statements that are open at the end of the lines.
pub open spec fn level(lines: Seq<PieceModel>) -> int
    decreases lines.len(),
{
    if lines.len() == 0 {
        0
    } else {
        level(lines.drop_last()) + step(lines.last())
    }
}

/// Whether every statement that is opened is closed, and none is closed that was not
/// opened before.
pub open spec fn balanced(lines: Seq<PieceModel>) -> bool {
    &&& level(lines) == 0
    &&& forall|n: int| 0 <= n <= lines.len() ==> level(#[trigger] lines.take(n)) >= 0
}

proof fn lemma_level_add(a: Seq<PieceModel>, b: Seq<PieceModel>)
    ensures
        level(a + b) == level(a) + level(b),
    decreases b.len(),
{
    if b.len() == 0 {
        assert(a + b =~= a);
    } else {
        assert((a + b).drop_last() =~= a + b.drop_last());
        lemma_level_add(a, b.drop_last());
    }
}

proof fn lemma_balanced_add(a: Seq<PieceModel>, b: Seq<PieceModel>)
    requires
        balanced(a),
        balanced(b),
    ensures
        balanced(a + b),
{
    lemma_level_add(a, b);
    assert forall|n: int| 0 <= n <= (a + b).len() implies level(#[trigger] (a + b).take(n)) >= 0 by {
        if n <= a.len() {
            assert((a + b).take(n) =~= a.take(n));
        } else {
            assert((a + b).take(n) =~= a + b.take(n - a.len()));
            lemma_level_add(a, b.take(n - a.len()));
        }
    }
}

proof fn lemma_level_one(piece: PieceModel)
    ensures
        level(seq![piece]) == step(piece),
{
    reveal_with_fuel(level, 2);
    assert(seq![piece].drop_last() =~= Seq::<PieceModel>::empty());
}

proof fn lemma_balanced_block(first: PieceModel, body: Seq<PieceModel>, last: PieceModel)
    requires
        step(first) == 1,
        balanced(body),
        step(last) == -1,
    ensures
        balanced(seq![first] + body + seq![last]),
{
    let lines = seq![first] + body + seq![last];
    lemma_level_add(seq![first], body);
    lemma_level_add(seq![first] + body, seq![last]);
    lemma_level_one(first);
    lemma_level_one(last);
    assert forall|n: int| 0 <= n <= lines.len() implies level(#[trigger] lines.take(n)) >= 0 by {
        if n == 0 {
            assert(lines.take(n) =~= Seq::<PieceModel>::empty());
        } else if n <= 1 + body.len() {
            assert(lines.take(n) =~= seq![first] + body.take(n - 1));
            lemma_level_add(seq![first], body.take(n - 1));
        } else {
            assert(lines.take(n) =~= lines);
        }
    }
}

proof fn lemma_balanced_plain(lines: Seq<PieceModel>)
    requires
        forall|i: int| 0 <= i < lines.len() ==> step(#[trigger] lines[i]) == 0,
    ensures
        balanced(lines),
    decreases lines.len(),
{
    if lines.len() > 0 {
        let before = lines.drop_last();
        assert forall|i: int| 0 <= i < before.len() implies step(#[trigger] before[i]) == 0 by {
            assert(before[i] == lines[i]);
        }
        lemma_balanced_plain(before);
        assert forall|n: int| 0 <= n <= lines.len() implies level(#[trigger] lines.take(n)) >= 0 by {
            if n < lines.len() {
                assert(lines.take(n) =~= before.take(n));
            } else {
                assert(lines.take(n) =~= lines);
            }
        }
    } else {
        assert forall|n: int| 0 <= n <= lines.len() implies level(#[trigger] lines.take(n)) >= 0 by {
            assert(lines.take(n) =~= lines);
        }
    }
}

proof fn lemma_plain(depth: nat, text: Seq<char>)
    requires
        text.len() > 0,
        text[0] != 'i',
        text[0] != 'f',
        text[0] != 'e',
    ensures
        step(PieceModel::Text { depth, text }) == 0,
{
    reveal_strlit("if ");
    reveal_strlit("for ");
    reveal_strlit("end");
    assert(text.subrange(0, 3)[0] == text[0] || text.len() < 3);
    assert(text.subrange(0, 4)[0] == text[0] || text.len() < 4);
}

proof fn lemma_end()
    ensures
        step(line("end"@)) == -1,
{
    reveal_strlit("if ");
    reveal_strlit("for ");
    reveal_strlit("end");
    assert("end"@.subrange(0, 3)[0] == 'e');
}

proof fn lemma_encode_text_start(field: FieldModel, scope: Scope, value_var: Seq<char>)
    ensures
        encode_text(field, scope, value_var).len() > 0,
        encode_text(field, scope, value_var)[0] == 'o' || encode_text(field, scope, value_var)[0] == 'l',
{
    reveal_strlit("local encoded = ");
    reveal_strlit("output, cursor = proto.writeTag(output, cursor, ");
}

proof fn lemma_replaced_start(s: Seq<char>, from: Seq<char>, to: Seq<char>)
    requires
        s.len() > 0,
        from.len() > 0,
        to.len() > 0,
    ensures
        replaced(s, from, to).len() > 0,
        replaced(s, from, to)[0] == s[0] || replaced(s, from, to)[0] == to[0],
        s[0] != from[0] ==> replaced(s, from, to)[0] == s[0],
{
    if from.is_prefix_of(s) {
        assert(s.subrange(0, from.len() as int)[0] == from[0]);
    }
}

proof fn lemma_encode_part_start(field: FieldModel, scope: Scope, value_var: Seq<char>)
    ensures
        step(line(encode_part_text(field, scope, value_var))) == 0,
{
    reveal_strlit("cursor");
    reveal_strlit("output");
    reveal_strlit("mapCursor");
    reveal_strlit("mapBuffer");
    let written = encode_text(field, scope, value_var);
    lemma_encode_text_start(field, scope, value_var);
    lemma_replaced_start(written, "cursor"@, "mapCursor"@);
    lemma_replaced_start(replaced(written, "cursor"@, "mapCursor"@), "output"@, "mapBuffer"@);
    lemma_plain(0, encode_part_text(field, scope, value_var));
}

proof fn lemma_branches(branches: Seq<BranchModel>)
    requires
        forall|i: int|
            0 <= i < branches.len() ==> step(
                PieceModel::Text { depth: 1, text: (#[trigger] branches[i]).statement },
            ) == 0,
    ensures
        level(branch_lines(branches)) == (if branches.len() == 0 {
            0int
        } else {
            1
        }),
        forall|n: int| 0 <= n <= branch_lines(branches).len() ==> level(#[trigger] branch_lines(branches).take(n)) >= 0,
    decreases branches.len(),
{
    let lines = branch_lines(branches);
    if branches.len() > 0 {
        let before = branch_lines(branches.drop_last());
        assert forall|i: int| 0 <= i < branches.drop_last().len() implies step(
            PieceModel::Text { depth: 1, text: (#[trigger] branches.drop_last()[i]).statement },
        ) == 0 by {
            assert(branches[i] == branches.drop_last()[i]);
        }
        lemma_branches(branches.drop_last());
        let condition = branches.last().condition;
        let keyword = if branches.len() == 1 {
            "if "@
        } else {
            "elseif "@
        };
        let header = line(keyword + condition + " then"@);
        let statement = PieceModel::Text { depth: 1, text: branches.last().statement };
        assert(branches.last() == branches[branches.len() - 1]);
        assert(step(header) == (if branches.len() == 1 {
            1int
        } else {
            0
        })) by {
            if branches.len() == 1 {
                reveal_strlit("if ");
                lemma_starts_with_if("if "@ + condition + " then"@);
            } else {
                reveal_strlit("elseif ");
                reveal_strlit("if ");
                reveal_strlit("for ");
                reveal_strlit("end");
                let text = keyword + condition + " then"@;
                assert(text[0] == 'e' && text[1] == 'l');
                assert(text.subrange(0, 3)[0] == 'e');
                assert(text.subrange(0, 4)[0] == 'e');
                assert("end"@[1] == 'n');
            }
        }
        assert(lines == before.push(header).push(statement));
        assert(lines.drop_last() =~= before.push(header));
        assert(before.push(header).drop_last() =~= before);
        assert(level(before.push(header)) == level(before) + step(header));
        assert(level(lines) == level(before.push(header)) + step(statement));
        assert(branches.len() == 1 ==> before.len() == 0);
        assert forall|n: int| 0 <= n <= lines.len() implies level(#[trigger] lines.take(n)) >= 0 by {
            if n <= before.len() {
                assert(lines.take(n) =~= before.take(n));
            } else if n == before.len() + 1 {
                assert(lines.take(n) =~= before.push(header));
            } else {
                assert(lines.take(n) =~= lines);
            }
        }
    } else {
        assert forall|n: int| 0 <= n <= lines.len() implies level(#[trigger] lines.take(n)) >= 0 by {
            assert(lines.take(n) =~= lines);
        }
    }
}

proof fn lemma_if_statement(branches: Seq<BranchModel>)
    requires
        forall|i: int|
            0 <= i < branches.len() ==> step(
                PieceModel::Text { depth: 1, text: (#[trigger] branches[i]).statement },
            ) == 0,
    ensures
        balanced(if_statement(branches)),
{
    let lines = if_statement(branches);
    let before = branch_lines(branches);
    lemma_branches(branches);
    lemma_end();
    if branches.len() == 0 {
        lemma_balanced_plain(lines);
    } else {
        assert(lines.drop_last() =~= before);
        assert forall|n: int| 0 <= n <= lines.len() implies level(#[trigger] lines.take(n)) >= 0 by {
            if n <= before.len() {
                assert(lines.take(n) =~= before.take(n));
            } else {
                assert(lines.take(n) =~= lines);
            }
        }
    }
}

proof fn lemma_block_of_plain(first: PieceModel, lines: Seq<PieceModel>)
    requires
        step(first) == 1,
        forall|i: int| 0 <= i < lines.len() ==> step(#[trigger] lines[i]) == 0,
    ensures
        balanced(seq![first] + lines + seq![line("end"@)]),
{
    lemma_balanced_plain(lines);
    lemma_end();
    lemma_balanced_block(first, lines, line("end"@));
}

proof fn lemma_map_loop_opens(generator: GeneratorModel, map: MapModel)
    ensures
        step(line(generator.map_loop(map))) == 1,
{
    let text = generator.map_loop(map);
    reveal_strlit("for ");
    reveal_strlit("for key: ");
    lemma_starts_with_for(text);
}

proof fn lemma_starts_with_for(text: Seq<char>)
    requires
        text.len() >= 4,
        text[0] == 'f',
        text[1] == 'o',
        text[2] == 'r',
        text[3] == ' ',
    ensures
        step(line(text)) == 1,
{
    reveal_strlit("for ");
    assert(text.subrange(0, 4) =~= "for "@);
}

proof fn lemma_starts_with_if(text: Seq<char>)
    requires
        text.len() >= 3,
        text[0] == 'i',
        text[1] == 'f',
        text[2] == ' ',
    ensures
        step(line(text)) == 1,
{
    reveal_strlit("if ");
    assert(text.subrange(0, 3) =~= "if "@);
}

proof fn lemma_guarded(generator: GeneratorModel, body: Seq<PieceModel>)
    requires
        balanced(body),
    ensures
        balanced(generator.guarded(body)),
{
    reveal_strlit("if ");
    lemma_starts_with_if("if "@ + generator.guard() + " then"@);
    lemma_end();
    lemma_balanced_block(line("if "@ + generator.guard() + " then"@), body, line("end"@));
}

/// The statements that write a field close every block that they open.
pub proof fn law_encode_closes_its_blocks(generator: GeneratorModel)
    ensures
        balanced(generator.encode_lines()),
{
    let scope = generator.scope;
    let body = generator.encode_body();
    lemma_end();
    match generator.kind {
        KindModel::Single(field) => {
            match generator.map_type() {
                Some(map) => {
                    reveal_strlit("local mapBuffer = buffer.create(0)");
                    reveal_strlit("local mapCursor = 0");
                    reveal_strlit("output, cursor = proto.write");
                    reveal_strlit("output, cursor = proto.writeTag(output, cursor, ");
                    lemma_map_loop_opens(generator, map);
                    let inner = body.subrange(1, 8);
                    lemma_encode_part_start(map.key, scope, "key"@);
                    lemma_encode_part_start(map.value, scope, "value"@);
                    assert forall|i: int| 0 <= i < inner.len() implies step(#[trigger] inner[i]) == 0 by {
                        if i != 2 && i != 3 {
                            lemma_plain(0, inner[i]->text);
                        }
                    }
                    assert(body =~= seq![line(generator.map_loop(map))] + inner + seq![line("end"@)]);
                    lemma_block_of_plain(line(generator.map_loop(map)), inner);
                },
                None => {
                    if field.repeated() {
                        reveal_strlit("for _, value: ");
                        let inner = body.subrange(1, 2);
                        lemma_encode_text_start(field, scope, "value"@);
                        lemma_plain(1, encode_text(field, scope, "value"@));
                        lemma_starts_with_for(body[0]->text);
                        assert(body =~= seq![body[0]] + inner + seq![line("end"@)]);
                        lemma_block_of_plain(body[0], inner);
                    } else {
                        lemma_encode_text_start(field, scope, generator.this());
                        lemma_plain(0, encode_text(field, scope, generator.this()));
                        lemma_balanced_plain(body);
                    }
                },
            }
        },
        KindModel::OneOf { fields, .. } => {
            let branches = fields.map_values(|field: FieldModel| generator.encode_branch(field));
            assert forall|i: int| 0 <= i < branches.len() implies step(
                PieceModel::Text { depth: 1, text: (#[trigger] branches[i]).statement },
            ) == 0 by {
                lemma_encode_text_start(fields[i], scope, generator.this() + ".value"@);
                lemma_plain(1, branches[i].statement);
            }
            lemma_if_statement(branches);
        },
    }
    lemma_guarded(generator, body);
}

/// The statements that put the JSON form of a field into the output close every block
/// that they open.
pub proof fn law_json_encode_closes_its_blocks(generator: GeneratorModel, json_name: Seq<char>)
    ensures
        balanced(generator.json_encode_lines(json_name)),
{
    let output = "output."@ + json_name;
    let body = generator.json_encode_body(output);
    reveal_strlit("output.");
    reveal_strlit("local newOutput: ");
    reveal_strlit("newOutput[");
    reveal_strlit("table.insert(newOutput, ");
    reveal_strlit("for _, value: ");
    lemma_end();
    match generator.kind {
        KindModel::Single(field) => {
            if body.len() == 1 {
                lemma_plain(0, body[0]->text);
                lemma_balanced_plain(body);
            } else {
                if let Some(map) = generator.map_type() {
                    lemma_map_loop_opens(generator, map);
                } else {
                    lemma_starts_with_for(body[1]->text);
                }
                let inner = body.subrange(2, 3);
                lemma_plain(0, body[0]->text);
                lemma_plain(0, body[2]->text);
                lemma_plain(0, body[4]->text);
                lemma_block_of_plain(body[1], inner);
                lemma_balanced_plain(seq![body[0]]);
                lemma_balanced_plain(seq![body[4]]);
                let block = seq![body[1]] + inner + seq![line("end"@)];
                lemma_balanced_add(seq![body[0]], block);
                lemma_balanced_add(seq![body[0]] + block, seq![body[4]]);
                assert(body =~= seq![body[0]] + block + seq![body[4]]);
            }
        },
        KindModel::OneOf { fields, .. } => {
            let branches = fields.map_values(|field: FieldModel| generator.json_encode_branch(field, output));
            assert forall|i: int| 0 <= i < branches.len() implies step(
                PieceModel::Text { depth: 1, text: (#[trigger] branches[i]).statement },
            ) == 0 by {
                lemma_plain(1, branches[i].statement);
            }
            lemma_if_statement(branches);
        },
    }
    lemma_guarded(generator, body);
}

proof fn lemma_json_decode_block(generator: GeneratorModel, field: FieldModel, input_name: Seq<char>)
    ensures
        balanced(generator.json_decode_block(field, input_name)),
{
    let body = generator.json_decode_body(field, input_name);
    reveal_strlit("local newOutput: ");
    reveal_strlit("newOutput[");
    reveal_strlit("table.insert(newOutput, ");
    reveal_strlit("for _, value: ");
    reveal_strlit("for key, value in input.");
    reveal_strlit("self.");
    reveal_strlit("if input.");
    lemma_end();
    if body.len() == 1 {
        lemma_plain(0, body[0]->text);
        lemma_balanced_plain(body);
    } else {
        lemma_starts_with_for(body[1]->text);
        let inner = body.subrange(2, 3);
        let tail = body.subrange(4, 6);
        lemma_plain(0, body[0]->text);
        lemma_plain(0, body[2]->text);
        lemma_plain(0, body[5]->text);
        lemma_block_of_plain(body[1], inner);
        lemma_balanced_plain(seq![body[0]]);
        assert(step(tail[0]) == 0 && step(tail[1]) == 0);
        lemma_balanced_plain(tail);
        let block = seq![body[1]] + inner + seq![line("end"@)];
        lemma_balanced_add(seq![body[0]], block);
        lemma_balanced_add(seq![body[0]] + block, tail);
        assert(body =~= seq![body[0]] + block + tail);
    }
    let header = line("if input."@ + input_name + " ~= nil then"@);
    lemma_starts_with_if("if input."@ + input_name + " ~= nil then"@);
    lemma_balanced_block(header, body, line("end"@));
    lemma_balanced_plain(seq![PieceModel::Blank]);
    lemma_balanced_add(seq![header] + body + seq![line("end"@)], seq![PieceModel::Blank]);
    assert(generator.json_decode_block(field, input_name) =~= seq![header] + body + seq![line("end"@)] + seq![
        PieceModel::Blank,
    ]);
}

proof fn lemma_balanced_flatten(parts: Seq<Seq<PieceModel>>)
    requires
        forall|i: int| 0 <= i < parts.len() ==> balanced(#[trigger] parts[i]),
    ensures
        balanced(parts.flatten()),
    decreases parts.len(),
{
    if parts.len() == 0 {
        lemma_balanced_plain(parts.flatten());
    } else {
        let rest = parts.drop_first();
        assert forall|i: int| 0 <= i < rest.len() implies balanced(#[trigger] rest[i]) by {
            assert(rest[i] == parts[i + 1]);
        }
        lemma_balanced_flatten(rest);
        assert(parts.first() == parts[0]);
        lemma_balanced_add(parts.first(), rest.flatten());
    }
}

/// The statements that take the fields from the JSON input close every block that they
/// open.
pub proof fn law_json_decode_closes_its_blocks(generator: GeneratorModel, json_names: Seq<Seq<char>>)
    requires
        json_names.len() == generator.inner_fields().len(),
    ensures
        balanced(generator.json_decode_lines(json_names)),
{
    let parts = Seq::new(
        generator.inner_fields().len(),
        |i: int| generator.json_decode_field_lines(generator.inner_fields()[i], json_names[i]),
    );
    assert forall|i: int| 0 <= i < parts.len() implies balanced(#[trigger] parts[i]) by {
        let field = generator.inner_fields()[i];
        lemma_json_decode_block(generator, field, field.name);
        lemma_json_decode_block(generator, field, json_names[i]);
        lemma_balanced_add(
            generator.json_decode_block(field, field.name),
            generator.json_decode_block(field, json_names[i]),
        );
    }
    lemma_balanced_flatten(parts);
}

} // verus!
