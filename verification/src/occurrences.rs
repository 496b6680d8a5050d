//! What stands in the statements that write and read a value, and how often.
use crate::decode::{decode_value_lines, read_text, store_text};
use crate::descriptor::{FieldModel, FieldType};
use crate::instructions::{
    encode_text, header_text, sent_value, tag_text, value_type, wire_type_name, write_text, Scope,
    WireType,
};
use crate::laws::occurs;
use crate::string_builder::{line, PieceModel};
use crate::text::{decimal, digits, split};
use vstd::prelude::*;

verus! {

/// Whether `pattern` stands in `s` at the position `i`.
pub open spec fn occurs_at(pattern: Seq<char>, s: Seq<char>, i: int) -> bool {
    0 <= i && i + pattern.len() <= s.len() && s.subrange(i, i + pattern.len()) == pattern
}

/// Whether `pattern` stands in `s` at the position `at` and at no other.
pub open spec fn occurs_only_at(pattern: Seq<char>, s: Seq<char>, at: int) -> bool {
    forall|i: int| #[trigger] occurs_at(pattern, s, i) <==> i == at
}

/// Whether `pattern` stands nowhere in `s`.
spec fn free(pattern: Seq<char>, s: Seq<char>) -> bool {
    forall|i: int| !#[trigger] occurs_at(pattern, s, i)
}

/// Whether `pattern` never starts in `a` and ends in `b` where `b` follows `a`.
spec fn apart(pattern: Seq<char>, a: Seq<char>, b: Seq<char>) -> bool {
    forall|k: int|
        0 < k < pattern.len() && k <= a.len() && a.subrange(a.len() - k, a.len() as int) == #[trigger] pattern.take(k)
            ==> !pattern.skip(k).is_prefix_of(b)
}

proof fn lemma_free(pattern: Seq<char>, s: Seq<char>)
    ensures
        free(pattern, s) <==> !occurs(pattern, s),
{
    if !free(pattern, s) {
        let i = choose|i: int| #[trigger] occurs_at(pattern, s, i);
        assert(s.subrange(i, i + pattern.len()) == pattern);
    }
    if occurs(pattern, s) {
        let i = choose|i: int|
            0 <= i && i + pattern.len() <= s.len() && #[trigger] s.subrange(i, i + pattern.len()) == pattern;
        assert(occurs_at(pattern, s, i));
    }
}

proof fn lemma_occurs_in_sum(p: Seq<char>, a: Seq<char>, b: Seq<char>)
    requires
        p.len() > 0,
        apart(p, a, b),
    ensures
        forall|i: int|
            #[trigger] occurs_at(p, a + b, i) <==> occurs_at(p, a, i) || occurs_at(p, b, i - a.len()),
{
    assert forall|i: int|
        #[trigger] occurs_at(p, a + b, i) <==> occurs_at(p, a, i) || occurs_at(p, b, i - a.len()) by {
        if 0 <= i && i + p.len() <= (a + b).len() {
            if i + p.len() <= a.len() {
                assert((a + b).subrange(i, i + p.len()) =~= a.subrange(i, i + p.len()));
            } else if i >= a.len() {
                assert((a + b).subrange(i, i + p.len()) =~= b.subrange(i - a.len(), i - a.len() + p.len()));
            } else if (a + b).subrange(i, i + p.len()) == p {
                let k = a.len() - i;
                assert forall|j: int| 0 <= j < p.len() implies (a + b)[i + j] == p[j] by {
                    assert((a + b).subrange(i, i + p.len())[j] == p[j]);
                }
                assert(a.subrange(a.len() - k, a.len() as int) =~= p.take(k));
                assert(b.subrange(0, p.len() - k) =~= p.skip(k)) by {
                    assert forall|j: int| 0 <= j < p.len() - k implies b[j] == p.skip(k)[j] by {
                        assert((a + b)[i + (k + j)] == p[k + j]);
                    }
                }
                assert(p.skip(k).is_prefix_of(b));
            }
        }
    }
}

proof fn lemma_apart_by_start(p: Seq<char>, a: Seq<char>, b: Seq<char>)
    requires
        b.len() == 0 || !p.contains(b[0]),
    ensures
        apart(p, a, b),
{
    assert forall|k: int|
        0 < k < p.len() && k <= a.len() && a.subrange(a.len() - k, a.len() as int) == #[trigger] p.take(
            k,
        ) implies !p.skip(k).is_prefix_of(b) by {
        if p.skip(k).is_prefix_of(b) {
            assert(p.skip(k)[0] == b[0]);
            assert(p[k] == b[0]);
        }
    }
}

proof fn lemma_apart_by_end(p: Seq<char>, a: Seq<char>, b: Seq<char>)
    requires
        a.len() == 0 || !p.drop_last().contains(a.last()),
    ensures
        apart(p, a, b),
{
    assert forall|k: int|
        0 < k < p.len() && k <= a.len() && a.subrange(a.len() - k, a.len() as int) == #[trigger] p.take(
            k,
        ) implies !p.skip(k).is_prefix_of(b) by {
        assert(p.take(k)[k - 1] == a.subrange(a.len() - k, a.len() as int)[k - 1]);
        assert(p.drop_last()[k - 1] == a.last());
    }
}

proof fn lemma_free_sum(p: Seq<char>, a: Seq<char>, b: Seq<char>)
    requires
        p.len() > 0,
        free(p, a),
        free(p, b),
        apart(p, a, b),
    ensures
        free(p, a + b),
{
    lemma_occurs_in_sum(p, a, b);
}

proof fn lemma_free_by_char(p: Seq<char>, s: Seq<char>, c: char)
    requires
        p.contains(c),
        !s.contains(c),
    ensures
        free(p, s),
{
    let j = p.index_of(c);
    assert forall|i: int| !#[trigger] occurs_at(p, s, i) by {
        if occurs_at(p, s, i) {
            assert(s.subrange(i, i + p.len())[j] == c);
            assert(s[i + j] == c);
        }
    }
}

/// A pattern that holds none of the characters that stand between the parts of a
/// statement, and that holds a `T`, as most of the fixed parts do not.
spec fn is_pattern(p: Seq<char>) -> bool {
    &&& p.len() > 10
    &&& p.contains('T')
    &&& !p.contains(' ')
    &&& !p.contains(',')
    &&& !p.contains(')')
    &&& !p.contains('\n')
    &&& !p.drop_last().contains('(')
    &&& !p.contains('V')
    &&& !p.contains('F')
    &&& !p.contains('D')
    &&& !p.contains('S')
    &&& !p.contains('B')
    &&& forall|k: int| 0 <= k < p.len() && #[trigger] p[k] == '.' ==> k + 1 < p.len() && p[k + 1] == 'w'
}

proof fn lemma_tag_pattern()
    ensures
        is_pattern("proto.writeTag("@),
{
    reveal_strlit("proto.writeTag(");
    assert("proto.writeTag("@[11] == 'T');
}

proof fn lemma_drop_last_holds_no(s: Seq<char>, c: char)
    requires
        s.len() > 0,
        !s.contains(c),
    ensures
        !s.drop_last().contains(c),
{
    if s.drop_last().contains(c) {
        let i = s.drop_last().index_of(c);
        assert(s[i] == c);
    }
}

/// A text behind an opening part that ends in a blank or a bracket, and before a closing
/// part that starts with a blank or a bracket.
proof fn lemma_free_between(p: Seq<char>, before: Seq<char>, s: Seq<char>, after: Seq<char>)
    requires
        is_pattern(p),
        free(p, before),
        free(p, s),
        free(p, after),
        before.len() > 0,
        before.last() == ' ' || before.last() == '(',
        after.len() > 0,
        after[0] == ' ' || after[0] == ')' || after[0] == ',',
    ensures
        free(p, before + s + after),
{
    lemma_drop_last_holds_no(p, ' ');
    lemma_apart_by_end(p, before, s);
    lemma_free_sum(p, before, s);
    lemma_apart_by_start(p, before + s, after);
    lemma_free_sum(p, before + s, after);
}

proof fn lemma_free_call(p: Seq<char>, named: Seq<char>, method: Seq<char>)
    requires
        is_pattern(p),
        free(p, named),
        free(p, method),
        method.len() > 1,
        method[0] == '.',
        method[1] != 'w',
    ensures
        free(p, named + method),
{
    assert forall|k: int|
        0 < k < p.len() && k <= named.len() && named.subrange(named.len() - k, named.len() as int)
            == #[trigger] p.take(k) implies !p.skip(k).is_prefix_of(method) by {
        if p.skip(k).is_prefix_of(method) {
            assert(p.skip(k)[0] == method[0]);
            assert(p[k] == '.');
            assert(p.skip(k)[1] == method[1]);
        }
    }
    lemma_free_sum(p, named, method);
}

proof fn lemma_free_write(p: Seq<char>, codec: Seq<char>, value: Seq<char>)
    requires
        is_pattern(p),
        free(p, value),
        codec == "Float"@ || codec == "Double"@ || codec == "Fixed32"@ || codec == "Fixed64"@ || codec == "String"@
            || codec == "Buffer"@ || codec == "VarInt"@,
    ensures
        free(p, write_text(codec, value)),
{
    let call = "output, cursor = proto.write"@;
    let open = "(output, cursor, "@;
    reveal_strlit("output, cursor = proto.write");
    reveal_strlit("(output, cursor, ");
    reveal_strlit(")");
    reveal_strlit("Float");
    reveal_strlit("Double");
    reveal_strlit("Fixed32");
    reveal_strlit("Fixed64");
    reveal_strlit("String");
    reveal_strlit("Buffer");
    reveal_strlit("VarInt");
    lemma_free_by_char(p, call, 'T');
    lemma_free_by_char(p, codec, 'T');
    lemma_free_by_char(p, open, 'T');
    lemma_free_by_char(p, ")"@, 'T');
    lemma_apart_by_start(p, call, codec);
    lemma_free_sum(p, call, codec);
    let head = call + codec;
    assert(apart(p, head, open)) by {
        assert forall|k: int|
            0 < k < p.len() && k <= head.len() && head.subrange(head.len() - k, head.len() as int)
                == #[trigger] p.take(k) implies !p.skip(k).is_prefix_of(open) by {
            if p.skip(k).is_prefix_of(open) {
                assert(p.skip(k)[0] == open[0]);
                assert(p[k] == '(');
                if k < p.len() - 1 {
                    assert(p.drop_last()[k] == '(');
                }
                let j = k - codec.len();
                assert(p.take(k)[j] == head.subrange(head.len() - k, head.len() as int)[j]);
                assert(p[j] == codec[0]);
            }
        }
    }
    lemma_free_sum(p, head, open);
    lemma_free_between(p, head + open, value, ")"@);
}

proof fn lemma_codec(field_type: FieldType)
    ensures
        ({
            let codec = field_type.codec();
            codec == "Float"@ || codec == "Double"@ || codec == "Fixed32"@ || codec == "Fixed64"@ || codec
                == "String"@ || codec == "Buffer"@ || codec == "VarInt"@
        }),
{
}

proof fn lemma_free_sent_value(p: Seq<char>, field: FieldModel, scope: Scope, value_var: Seq<char>)
    requires
        is_pattern(p),
        free(p, value_var),
        free(p, value_type(field, scope)),
    ensures
        free(p, sent_value(field, scope, value_var)),
{
    reveal_strlit(")");
    lemma_free_by_char(p, ")"@, 'T');
    if field.field_type.is_zigzag() {
        reveal_strlit("proto.encodeZigZag(");
        lemma_free_by_char(p, "proto.encodeZigZag("@, 'T');
        lemma_free_between(p, "proto.encodeZigZag("@, value_var, ")"@);
    } else if field.field_type == FieldType::Bool {
        reveal_strlit("if ");
        reveal_strlit(" then 1 else 0");
        lemma_free_by_char(p, "if "@, 'T');
        lemma_free_by_char(p, " then 1 else 0"@, 'T');
        lemma_free_between(p, "if "@, value_var, " then 1 else 0"@);
    } else if field.field_type == FieldType::Enum {
        reveal_strlit(".toNumber(");
        lemma_free_by_char(p, ".toNumber("@, 'T');
        lemma_free_call(p, value_type(field, scope), ".toNumber("@);
        lemma_free_between(p, value_type(field, scope) + ".toNumber("@, value_var, ")"@);
    }
}

/// The first line for a message.
spec fn message_text(field: FieldModel, scope: Scope, value_var: Seq<char>) -> Seq<char> {
    "local encoded = "@ + value_type(field, scope) + ".encode("@ + value_var + ")"@
}

proof fn lemma_free_message(p: Seq<char>, field: FieldModel, scope: Scope, value_var: Seq<char>)
    requires
        is_pattern(p),
        free(p, value_var),
        free(p, value_type(field, scope)),
    ensures
        free(p, message_text(field, scope, value_var)),
        free(p, write_text("VarInt"@, "buffer.len(encoded)"@)),
        free(p, write_text("Buffer"@, "encoded"@)),
{
    let named = value_type(field, scope);
    reveal_strlit("local encoded = ");
    reveal_strlit(".encode(");
    reveal_strlit(")");
    reveal_strlit("buffer.len(encoded)");
    reveal_strlit("encoded");
    lemma_free_by_char(p, "local encoded = "@, 'T');
    lemma_free_by_char(p, ".encode("@, 'T');
    lemma_free_by_char(p, ")"@, 'T');
    lemma_free_by_char(p, "buffer.len(encoded)"@, 'T');
    lemma_free_by_char(p, "encoded"@, 'T');
    lemma_drop_last_holds_no(p, ' ');
    lemma_apart_by_end(p, "local encoded = "@, named);
    lemma_free_sum(p, "local encoded = "@, named);
    lemma_free_call(p, "local encoded = "@ + named, ".encode("@);
    lemma_free_between(p, "local encoded = "@ + named + ".encode("@, value_var, ")"@);
    lemma_free_write(p, "VarInt"@, "buffer.len(encoded)"@);
    lemma_free_write(p, "Buffer"@, "encoded"@);
}

proof fn lemma_digits_hold_no(n: nat, c: char)
    requires
        c == 'T' || c == 'Z' || c == '\n',
    ensures
        !digits(n).contains(c),
    decreases n,
{
    if n >= 10 {
        lemma_digits_hold_no(n / 10, c);
        if digits(n).contains(c) {
            let i = digits(n).index_of(c);
            if i < digits(n).len() - 1 {
                assert(digits(n / 10)[i] == c);
            }
        }
    }
}

proof fn lemma_decimal_holds_no(n: int, c: char)
    requires
        c == 'T' || c == 'Z' || c == '\n',
    ensures
        !decimal(n).contains(c),
{
    if n < 0 {
        lemma_digits_hold_no((-n) as nat, c);
        if decimal(n).contains(c) {
            let i = decimal(n).index_of(c);
            if i > 0 {
                assert(digits((-n) as nat)[i - 1] == c);
            }
        }
    } else {
        lemma_digits_hold_no(n as nat, c);
    }
}

/// The part of a tag statement behind the number.
spec fn tag_end(wire_type: WireType) -> Seq<char> {
    ", proto.wireTypes."@ + wire_type_name(wire_type) + ")"@
}

proof fn lemma_reveal_tag(wire_type: WireType)
    ensures
        !wire_type_name(wire_type).contains('T'),
        !wire_type_name(wire_type).contains('Z'),
        !wire_type_name(wire_type).contains('\n'),
{
    reveal_strlit("varint");
    reveal_strlit("lengthDelimited");
    reveal_strlit("i32");
    reveal_strlit("i64");
}

proof fn lemma_tag_end(wire_type: WireType)
    ensures
        free("proto.writeTag("@, tag_end(wire_type)),
{
    let names = ", proto.wireTypes."@;
    let name = wire_type_name(wire_type);
    lemma_reveal_tag(wire_type);
    reveal_strlit(", proto.wireTypes.");
    reveal_strlit(")");
    reveal_strlit("proto.writeTag(");
    let p = "proto.writeTag("@;
    lemma_tag_pattern();
    assert(p[14] == '(');
    lemma_free_by_char(p, names, '(');
    lemma_free_by_char(p, name, 'T');
    lemma_free_by_char(p, ")"@, 'T');
    assert(apart(p, names, name)) by {
        assert forall|k: int|
            0 < k < p.len() && k <= names.len() && names.subrange(names.len() - k, names.len() as int)
                == #[trigger] p.take(k) implies !p.skip(k).is_prefix_of(name) by {
            let end = names.subrange(names.len() - k, names.len() as int);
            assert(end[k - 1] == '.');
            assert(p.take(k)[k - 1] == p[k - 1]);
            assert(k == 6);
            assert(end[0] == 'T');
            assert(p.take(k)[0] == 'p');
        }
    }
    lemma_free_sum(p, names, name);
    lemma_apart_by_start(p, names + name, ")"@);
    lemma_free_sum(p, names + name, ")"@);
}

proof fn lemma_tag(number: int, wire_type: WireType)
    ensures
        occurs_only_at("proto.writeTag("@, tag_text(number, wire_type), "output, cursor = "@.len() as int),
{
    let head = "output, cursor = proto.writeTag(output, cursor, "@;
    let end = tag_end(wire_type);
    let p = "proto.writeTag("@;
    let at = "output, cursor = "@.len() as int;
    reveal_strlit("output, cursor = proto.writeTag(output, cursor, ");
    reveal_strlit("output, cursor = ");
    reveal_strlit("proto.writeTag(");
    reveal_strlit(", proto.wireTypes.");
    lemma_tag_pattern();
    lemma_tag_end(wire_type);
    lemma_decimal_holds_no(number, 'T');
    lemma_free_by_char(p, decimal(number), 'T');
    assert(tag_text(number, wire_type) =~= head + decimal(number) + end);
    assert(head.subrange(at, at + p.len()) =~= p);
    assert forall|i: int| #[trigger] occurs_at(p, head, i) implies i == at by {
        assert(head.subrange(i, i + p.len())[11] == 'T');
        assert(head[i + 11] == 'T');
    }
    lemma_apart_by_end(p, head, decimal(number));
    lemma_occurs_in_sum(p, head, decimal(number));
    lemma_apart_by_start(p, head + decimal(number), end);
    lemma_occurs_in_sum(p, head + decimal(number), end);
}

/// Two texts with a line break between them.
proof fn lemma_occurs_in_lines(p: Seq<char>, a: Seq<char>, b: Seq<char>)
    requires
        is_pattern(p),
    ensures
        forall|i: int|
            #[trigger] occurs_at(p, a + "\n"@ + b, i) <==> occurs_at(p, a, i) || occurs_at(p, b, i - a.len() - 1),
{
    let line_break = "\n"@;
    reveal_strlit("\n");
    lemma_free_by_char(p, line_break, 'T');
    lemma_apart_by_start(p, a, line_break);
    lemma_occurs_in_sum(p, a, line_break);
    lemma_drop_last_holds_no(p, '\n');
    lemma_apart_by_end(p, a + line_break, b);
    lemma_occurs_in_sum(p, a + line_break, b);
}

/// The tag of a field is written once for each value: `proto.writeTag(` stands in the
/// statements once, in the statement that writes the tag with the number and the wire
/// type of the field, unless the value or the name of the type bring in more.
pub proof fn law_one_tag_for_each_value(field: FieldModel, scope: Scope, value_var: Seq<char>)
    requires
        field.field_type != FieldType::Group,
        !occurs("proto.writeTag("@, value_var),
        !occurs("proto.writeTag("@, value_type(field, scope)),
    ensures
        exists|at: int|
            #[trigger] occurs_at(
                tag_text(field.number, field.field_type.wire_type()),
                encode_text(field, scope, value_var),
                at,
            ) && occurs_only_at(
                "proto.writeTag("@,
                encode_text(field, scope, value_var),
                at + "output, cursor = "@.len(),
            ),
{
    let p = "proto.writeTag("@;
    let tag = tag_text(field.number, field.field_type.wire_type());
    let text = encode_text(field, scope, value_var);
    lemma_tag_pattern();
    lemma_tag(field.number, field.field_type.wire_type());
    lemma_free(p, value_var);
    lemma_free(p, value_type(field, scope));
    reveal_strlit("\n");
    if field.field_type == FieldType::Message {
        let first = message_text(field, scope, value_var);
        let third = write_text("VarInt"@, "buffer.len(encoded)"@);
        let fourth = write_text("Buffer"@, "encoded"@);
        lemma_free_message(p, field, scope, value_var);
        lemma_occurs_in_lines(p, first, tag);
        lemma_occurs_in_lines(p, first + "\n"@ + tag, third);
        lemma_occurs_in_lines(p, first + "\n"@ + tag + "\n"@ + third, fourth);
        assert(text =~= first + "\n"@ + tag + "\n"@ + third + "\n"@ + fourth);
        let at: int = first.len() + 1int;
        assert(text.subrange(at, at + tag.len()) =~= tag);
        assert(occurs_at(tag, text, at));
    } else {
        let value = sent_value(field, scope, value_var);
        lemma_free_sent_value(p, field, scope, value_var);
        lemma_codec(field.field_type);
        lemma_free_write(p, field.field_type.codec(), value);
        lemma_occurs_in_lines(p, tag, write_text(field.field_type.codec(), value));
        assert(text.subrange(0, 0int + tag.len()) =~= tag);
        assert(occurs_at(tag, text, 0));
    }
}

proof fn lemma_split_one(s: Seq<char>, sep: char)
    requires
        !s.contains(sep),
    ensures
        split(s, sep) == seq![s],
    decreases s.len(),
{
    if s.len() > 0 {
        let before = s.drop_last();
        assert(s.contains(s.last()));
        lemma_drop_last_holds_no(s, sep);
        lemma_split_one(before, sep);
        assert(before.push(s.last()) =~= s);
        assert(split(s, sep) =~= seq![s]);
    }
}

proof fn lemma_split_ends(s: Seq<char>, sep: char)
    ensures
        split(s, sep).len() > 0,
        split(s, sep).last().len() <= s.len(),
        split(s, sep).last() == s.skip(s.len() - split(s, sep).last().len()),
    decreases s.len(),
{
    let last = split(s, sep).last();
    if s.len() > 0 {
        lemma_split_ends(s.drop_last(), sep);
        assert(last =~= s.skip(s.len() - last.len()));
    } else {
        assert(s.skip(0) =~= s);
    }
}

proof fn lemma_split_add(a: Seq<char>, b: Seq<char>, sep: char)
    ensures
        split(a + seq![sep] + b, sep) == split(a, sep) + split(b, sep),
    decreases b.len(),
{
    let s = a + seq![sep] + b;
    if b.len() == 0 {
        assert(s.drop_last() =~= a);
        assert(b =~= Seq::<char>::empty());
        assert(split(s, sep) =~= split(a, sep) + split(b, sep));
    } else {
        lemma_split_add(a, b.drop_last(), sep);
        lemma_split_ends(b.drop_last(), sep);
        assert(s.drop_last() =~= a + seq![sep] + b.drop_last());
        assert(s.last() == b.last());
        assert(split(s, sep) =~= split(a, sep) + split(b, sep));
    }
}

/// What stands nowhere in a text stands in none of its lines.
proof fn lemma_free_lines(p: Seq<char>, s: Seq<char>, sep: char)
    requires
        p.len() > 0,
        free(p, s),
    ensures
        forall|j: int| 0 <= j < split(s, sep).len() ==> free(p, #[trigger] split(s, sep)[j]),
    decreases s.len(),
{
    if s.len() > 0 {
        let before = s.drop_last();
        assert forall|i: int| !#[trigger] occurs_at(p, before, i) by {
            if occurs_at(p, before, i) {
                assert(s.subrange(i, i + p.len()) =~= before.subrange(i, i + p.len()));
                assert(occurs_at(p, s, i));
            }
        }
        lemma_free_lines(p, before, sep);
        lemma_split_ends(before, sep);
        lemma_split_ends(s, sep);
        let lines = split(s, sep);
        let last = lines.last();
        let start = s.len() - last.len();
        assert(free(p, last)) by {
            assert forall|i: int| !#[trigger] occurs_at(p, last, i) by {
                if occurs_at(p, last, i) {
                    assert(s.subrange(start + i, start + i + p.len()) =~= last.subrange(i, i + p.len()));
                    assert(occurs_at(p, s, start + i));
                }
            }
        }
        assert forall|j: int| 0 <= j < lines.len() implies free(p, #[trigger] lines[j]) by {
            if j < lines.len() - 1 {
                assert(lines[j] == split(before, sep)[j]);
            }
        }
    }
}

proof fn lemma_no_char_in_sum(a: Seq<char>, b: Seq<char>, c: char)
    requires
        !a.contains(c),
        !b.contains(c),
    ensures
        !(a + b).contains(c),
{
    if (a + b).contains(c) {
        let i = (a + b).index_of(c);
        if i < a.len() {
            assert(a[i] == c);
        } else {
            assert(b[i - a.len()] == c);
        }
    }
}

proof fn lemma_tag_holds_no(number: int, wire_type: WireType, c: char)
    requires
        c == '\n' || c == 'Z',
    ensures
        !tag_text(number, wire_type).contains(c),
{
    let head = "output, cursor = proto.writeTag(output, cursor, "@;
    let names = ", proto.wireTypes."@;
    reveal_strlit("output, cursor = proto.writeTag(output, cursor, ");
    reveal_strlit(", proto.wireTypes.");
    reveal_strlit(")");
    lemma_reveal_tag(wire_type);
    lemma_decimal_holds_no(number, c);
    lemma_no_char_in_sum(head, decimal(number), c);
    lemma_no_char_in_sum(head + decimal(number), names, c);
    lemma_no_char_in_sum(head + decimal(number) + names, wire_type_name(wire_type), c);
    lemma_no_char_in_sum(head + decimal(number) + names + wire_type_name(wire_type), ")"@, c);
}

/// Of the lines that write a value exactly one writes a tag, and that line is the tag
/// statement with the number and the wire type of the field, unless the value or the name
/// of the type bring in more.
pub proof fn law_one_line_writes_the_tag(field: FieldModel, scope: Scope, value_var: Seq<char>)
    requires
        field.field_type != FieldType::Group,
        !occurs("proto.writeTag("@, value_var),
        !occurs("proto.writeTag("@, value_type(field, scope)),
    ensures
        ({
            let lines = split(encode_text(field, scope, value_var), '\n');
            exists|k: int|
                0 <= k < lines.len() && #[trigger] lines[k] == tag_text(field.number, field.field_type.wire_type())
                    && forall|j: int|
                    0 <= j < lines.len() ==> (occurs("proto.writeTag("@, #[trigger] lines[j]) <==> j == k)
        }),
{
    let p = "proto.writeTag("@;
    let tag = tag_text(field.number, field.field_type.wire_type());
    let text = encode_text(field, scope, value_var);
    let lines = split(text, '\n');
    lemma_tag_pattern();
    lemma_tag(field.number, field.field_type.wire_type());
    lemma_tag_holds_no(field.number, field.field_type.wire_type(), '\n');
    lemma_split_one(tag, '\n');
    lemma_free(p, value_var);
    lemma_free(p, value_type(field, scope));
    lemma_free(p, tag);
    assert(occurs_at(p, tag, "output, cursor = "@.len() as int));
    reveal_strlit("\n");
    assert("\n"@ =~= seq!['\n']);
    let (before, after) = if field.field_type == FieldType::Message {
        let first = message_text(field, scope, value_var);
        let third = write_text("VarInt"@, "buffer.len(encoded)"@);
        let fourth = write_text("Buffer"@, "encoded"@);
        lemma_free_message(p, field, scope, value_var);
        lemma_free_lines(p, first, '\n');
        lemma_free_lines(p, third, '\n');
        lemma_free_lines(p, fourth, '\n');
        lemma_split_add(first, tag, '\n');
        lemma_split_add(first + "\n"@ + tag, third, '\n');
        lemma_split_add(first + "\n"@ + tag + "\n"@ + third, fourth, '\n');
        assert(text =~= first + "\n"@ + tag + "\n"@ + third + "\n"@ + fourth);
        (split(first, '\n'), split(third, '\n') + split(fourth, '\n'))
    } else {
        let value = sent_value(field, scope, value_var);
        let write = write_text(field.field_type.codec(), value);
        lemma_free_sent_value(p, field, scope, value_var);
        lemma_codec(field.field_type);
        lemma_free_write(p, field.field_type.codec(), value);
        lemma_free_lines(p, write, '\n');
        lemma_split_add(tag, write, '\n');
        (Seq::<Seq<char>>::empty(), split(write, '\n'))
    };
    let k = before.len() as int;
    assert(lines =~= before.push(tag) + after);
    assert(lines[k] == tag);
    assert forall|j: int| 0 <= j < lines.len() implies (occurs(p, #[trigger] lines[j]) <==> j == k) by {
        lemma_free(p, lines[j]);
        if j < k {
            assert(lines[j] == before[j]);
            assert(free(p, before[j]));
        } else if j > k {
            assert(lines[j] == after[j - k - 1]);
            assert(free(p, after[j - k - 1]));
        }
    }
}

/// The call that zigzag encodes a value.
pub open spec fn zigzag_call(value_var: Seq<char>) -> Seq<char> {
    "proto.encodeZigZag("@ + value_var + ")"@
}

/// The call of the named type that turns a value into what is written: none but for enums
/// and messages.
pub open spec fn named_call(field: FieldModel, scope: Scope, value_var: Seq<char>) -> Seq<char> {
    match field.field_type {
        FieldType::Enum => value_type(field, scope) + ".toNumber("@ + value_var + ")"@,
        FieldType::Message => value_type(field, scope) + ".encode("@ + value_var + ")"@,
        _ => Seq::empty(),
    }
}

proof fn lemma_call_is_behind(before: Seq<char>, rest: Seq<char>, value_var: Seq<char>, i: int)
    requires
        before.len() > 0,
        before.last() == ' ',
        !before.contains('Z'),
        occurs_at(zigzag_call(value_var), before + rest, i),
    ensures
        i >= before.len(),
        occurs_at(zigzag_call(value_var), rest, i - before.len()),
{
    let call = zigzag_call(value_var);
    let name = "proto.encodeZigZag("@;
    let text = before + rest;
    reveal_strlit("proto.encodeZigZag(");
    reveal_strlit(")");
    assert forall|j: int| 0 <= j < call.len() implies text[i + j] == call[j] by {
        assert(text.subrange(i, i + call.len())[j] == call[j]);
    }
    if i < before.len() {
        if i + name.len() <= before.len() {
            assert(text[i + 12] == call[12]);
            assert(before[i + 12] == 'Z');
        } else {
            let j = before.len() - 1 - i;
            assert(text[i + j] == call[j]);
            assert(name[j] == ' ');
        }
    } else {
        assert(rest.subrange(i - before.len(), i - before.len() + call.len()) =~= text.subrange(i, i + call.len()));
    }
}

proof fn lemma_character_moves_on(s: Seq<char>, n: int, period: int, x: int)
    requires
        0 < period,
        n + period <= s.len(),
        forall|t: int| 0 <= t < n ==> #[trigger] s[t] == s[t + period],
        0 <= x < n,
    ensures
        exists|y: int| n <= y < s.len() && #[trigger] s[y] == s[x],
    decreases n - x,
{
    assert(s[x] == s[x + period]);
    if x + period < n {
        lemma_character_moves_on(s, n, period, x + period);
    }
}

/// Behind the type's name in the code for a message there is no zigzag call that goes
/// past the end of the call that encodes the message.
proof fn lemma_no_call_past_message(
    named: Seq<char>,
    value_var: Seq<char>,
    tail: Seq<char>,
    i: int,
)
    requires
        !tail.contains('Z'),
        tail.len() > 0,
        occurs_at(zigzag_call(value_var), named + ".encode("@ + value_var + ")"@ + tail, i),
    ensures
        occurs_at(zigzag_call(value_var), named + ".encode("@ + value_var + ")"@, i),
{
    let call = zigzag_call(value_var);
    let name = "proto.encodeZigZag("@;
    let own = named + ".encode("@ + value_var + ")"@;
    let text = own + tail;
    reveal_strlit("proto.encodeZigZag(");
    reveal_strlit(".encode(");
    reveal_strlit(")");
    assert forall|j: int| 0 <= j < call.len() implies text[i + j] == call[j] by {
        assert(text.subrange(i, i + call.len())[j] == call[j]);
    }
    let n = named.len() as int;
    if i + call.len() <= own.len() {
        assert(own.subrange(i, i + call.len()) =~= text.subrange(i, i + call.len()));
    } else if i < n {
        let j = n - i;
        assert(text[i + j] == call[j]);
        assert(text[n] == '.');
        assert(name[j] == '.');
        assert(j == 5);
        assert(text[i + 12] == call[12]);
        assert(text[n + 7] == '(');
    } else if i < n + 8 {
        assert(text[i + 0] == call[0]);
        assert(".encode("@[i - n] == 'p');
    } else {
        let s = value_var + (")"@ + tail);
        let d = i - n - 8;
        let length = value_var.len() as int;
        assert(text =~= named + ".encode("@ + s);
        assert forall|j: int| 0 <= j < call.len() implies s[d + j] == call[j] by {
            assert(text[i + j] == call[j]);
        }
        lemma_no_char_in_sum(")"@, tail, 'Z');
        assert(call[12] == 'Z');
        assert(s[d + 12] == call[12]);
        if d + name.len() > length && d < length {
            assert(s[length] == ')');
            assert(s[d + (length - d)] == call[length - d]);
            assert(name[length - d] == ')');
        } else if d >= length {
            assert((")"@ + tail)[d + 12 - length] == 'Z');
        } else {
            let period = d + name.len();
            assert forall|t: int| 0 <= t < length implies #[trigger] s[t] == s[t + period] by {
                assert(s[d + (name.len() + t)] == call[name.len() + t]);
                assert(call[name.len() + t] == value_var[t]);
            }
            lemma_character_moves_on(s, length, period, d + 12);
            let y = choose|y: int| length <= y < s.len() && #[trigger] s[y] == s[d + 12];
            assert((")"@ + tail)[y - length] == 'Z');
        }
    }
}

proof fn lemma_write_start_holds_no_zigzag(codec: Seq<char>)
    requires
        codec == "Float"@ || codec == "Double"@ || codec == "Fixed32"@ || codec == "Fixed64"@ || codec == "String"@
            || codec == "Buffer"@ || codec == "VarInt"@,
    ensures
        !("output, cursor = proto.write"@ + codec + "(output, cursor, "@).contains('Z'),
{
    let call = "output, cursor = proto.write"@;
    reveal_strlit("output, cursor = proto.write");
    reveal_strlit("(output, cursor, ");
    reveal_strlit("Float");
    reveal_strlit("Double");
    reveal_strlit("Fixed32");
    reveal_strlit("Fixed64");
    reveal_strlit("String");
    reveal_strlit("Buffer");
    reveal_strlit("VarInt");
    lemma_no_char_in_sum(call, codec, 'Z');
    lemma_no_char_in_sum(call + codec, "(output, cursor, "@, 'Z');
}

proof fn lemma_no_zigzag_call_for_message(field: FieldModel, scope: Scope, value_var: Seq<char>, i: int)
    requires
        field.field_type == FieldType::Message,
        occurs_at(zigzag_call(value_var), encode_text(field, scope, value_var), i),
    ensures
        occurs(zigzag_call(value_var), named_call(field, scope, value_var)),
{
    let start = "local encoded = "@;
    let own = named_call(field, scope, value_var);
    let tag = tag_text(field.number, field.field_type.wire_type());
    let head = "output, cursor = proto.write"@;
    let open = "(output, cursor, "@;
    let third = write_text("VarInt"@, "buffer.len(encoded)"@);
    let fourth = write_text("Buffer"@, "encoded"@);
    let tail = "\n"@ + tag + "\n"@ + third + "\n"@ + fourth;
    reveal_strlit("local encoded = ");
    reveal_strlit("\n");
    reveal_strlit(")");
    reveal_strlit("buffer.len(encoded)");
    reveal_strlit("encoded");
    lemma_tag_holds_no(field.number, field.field_type.wire_type(), 'Z');
    lemma_write_start_holds_no_zigzag("VarInt"@);
    lemma_write_start_holds_no_zigzag("Buffer"@);
    lemma_no_char_in_sum(head + "VarInt"@ + open, "buffer.len(encoded)"@, 'Z');
    lemma_no_char_in_sum(head + "VarInt"@ + open + "buffer.len(encoded)"@, ")"@, 'Z');
    lemma_no_char_in_sum(head + "Buffer"@ + open, "encoded"@, 'Z');
    lemma_no_char_in_sum(head + "Buffer"@ + open + "encoded"@, ")"@, 'Z');
    lemma_no_char_in_sum("\n"@, tag, 'Z');
    lemma_no_char_in_sum("\n"@ + tag, "\n"@, 'Z');
    lemma_no_char_in_sum("\n"@ + tag + "\n"@, third, 'Z');
    lemma_no_char_in_sum("\n"@ + tag + "\n"@ + third, "\n"@, 'Z');
    lemma_no_char_in_sum("\n"@ + tag + "\n"@ + third + "\n"@, fourth, 'Z');
    assert(encode_text(field, scope, value_var) =~= start + (own + tail));
    lemma_call_is_behind(start, own + tail, value_var, i);
    lemma_no_call_past_message(value_type(field, scope), value_var, tail, i - start.len());
    lemma_free(zigzag_call(value_var), own);
}

proof fn lemma_no_zigzag_call_for_other(field: FieldModel, scope: Scope, value_var: Seq<char>, i: int)
    requires
        field.field_type != FieldType::Group,
        field.field_type != FieldType::Message,
        !field.field_type.is_zigzag(),
        occurs_at(zigzag_call(value_var), encode_text(field, scope, value_var), i),
    ensures
        occurs(zigzag_call(value_var), named_call(field, scope, value_var)),
{
    let call = zigzag_call(value_var);
    let tag = tag_text(field.number, field.field_type.wire_type());
    let write = "output, cursor = proto.write"@ + field.field_type.codec() + "(output, cursor, "@;
    let start = tag + "\n"@ + write;
    let value = sent_value(field, scope, value_var);
    let text = encode_text(field, scope, value_var);
    reveal_strlit("proto.encodeZigZag(");
    reveal_strlit("(output, cursor, ");
    reveal_strlit("\n");
    reveal_strlit(")");
    reveal_strlit("if ");
    reveal_strlit(" then 1 else 0");
    reveal_strlit(".toNumber(");
    lemma_tag_holds_no(field.number, field.field_type.wire_type(), 'Z');
    lemma_codec(field.field_type);
    lemma_write_start_holds_no_zigzag(field.field_type.codec());
    lemma_no_char_in_sum(tag, "\n"@, 'Z');
    lemma_no_char_in_sum(tag + "\n"@, write, 'Z');
    assert(start.last() == ' ');
    assert(text =~= start + (value + ")"@));
    if field.field_type == FieldType::Bool {
        let rest = value_var + " then 1 else 0"@ + ")"@;
        lemma_no_char_in_sum(start, "if "@, 'Z');
        assert(text =~= start + "if "@ + rest);
        lemma_call_is_behind(start + "if "@, rest, value_var, i);
    } else {
        lemma_call_is_behind(start, value + ")"@, value_var, i);
        let j = i - start.len();
        if field.field_type == FieldType::Enum {
            let named = value_type(field, scope);
            if j + call.len() <= value.len() {
                assert(value.subrange(j, j + call.len()) =~= (value + ")"@).subrange(j, j + call.len()));
                assert(occurs_at(call, value, j));
                lemma_free(call, value);
            } else {
                assert(j == named.len() - 8);
                assert((value + ")"@).subrange(j, j + call.len())[8] == call[8]);
                assert((value + ")"@)[named.len() as int] == '.');
            }
        }
    }
}

/// The call of `proto.encodeZigZag` on the value stands in the statements that write it if
/// and only if the type of the field is zigzag encoded, unless the call of the named type
/// spells that very call.
pub proof fn law_zigzag_call_stands_in_the_code(field: FieldModel, scope: Scope, value_var: Seq<char>)
    requires
        field.field_type != FieldType::Group,
        !occurs(zigzag_call(value_var), named_call(field, scope, value_var)),
    ensures
        occurs(zigzag_call(value_var), encode_text(field, scope, value_var)) <==> field.field_type.is_zigzag(),
{
    let call = zigzag_call(value_var);
    let text = encode_text(field, scope, value_var);
    let tag = tag_text(field.number, field.field_type.wire_type());
    lemma_free(call, text);
    if field.field_type.is_zigzag() {
        let head = tag + "\n"@ + ("output, cursor = proto.write"@ + field.field_type.codec() + "(output, cursor, "@);
        let at = head.len() as int;
        assert(text =~= head + call + ")"@);
        assert(text.subrange(at, at + call.len()) =~= call);
        assert(occurs_at(call, text, at));
    } else {
        assert forall|i: int| !#[trigger] occurs_at(call, text, i) by {
            if occurs_at(call, text, i) {
                if field.field_type == FieldType::Message {
                    lemma_no_zigzag_call_for_message(field, scope, value_var, i);
                } else {
                    lemma_no_zigzag_call_for_other(field, scope, value_var, i);
                }
            }
        }
    }
}

/// The lines of a text, none where it is empty.
pub open spec fn lines_of(text: Seq<char>) -> Seq<Seq<char>> {
    if text.len() == 0 {
        Seq::empty()
    } else {
        split(text, '\n')
    }
}

/// The codec that reads the values of a field type: a length-delimited value is read as a
/// buffer, and any other by the codec that wrote it.
pub open spec fn read_codec(field_type: FieldType) -> Seq<char> {
    if field_type.wire_type() == WireType::LengthDelimited {
        "Buffer"@
    } else {
        field_type.codec()
    }
}

/// The texts of lines that are not indented.
pub open spec fn line_texts(pieces: Seq<PieceModel>) -> Seq<Seq<char>> {
    pieces.map_values(|piece: PieceModel| piece->text)
}

/// A value is declared once and read once, before it is stored: by the header for its wire
/// type, and then the statements of the field only store it, or by the statements of the
/// field, and then the header is empty.
pub proof fn law_values_are_declared_and_read_before_they_are_stored(
    this: Seq<char>,
    field: FieldModel,
    scope: Scope,
    is_oneof: bool,
)
    requires
        field.field_type != FieldType::Group,
    ensures
        ({
            let header = header_text(field.field_type.wire_type());
            let lines = decode_value_lines(this, field, scope, is_oneof);
            let read = read_text(read_codec(field.field_type));
            let store = store_text(this, field, scope, is_oneof);
            let all = lines_of(header) + line_texts(lines);
            &&& {
                ||| header == Seq::<char>::empty() && lines == seq![line("local value"@), line(read), line(store)]
                ||| header == "local value\n"@ + read && lines == seq![line(store)]
            }
            &&& all == seq!["local value"@, read, store]
            &&& forall|i: int| 0 <= i < all.len() ==> (#[trigger] all[i] == "local value"@ <==> i == 0)
            &&& !"value, cursor = proto.read"@.is_prefix_of(store) ==> forall|i: int|
                0 <= i < all.len() ==> ("value, cursor = proto.read"@.is_prefix_of(#[trigger] all[i]) <==> i == 1)
        }),
{
    let wire_type = field.field_type.wire_type();
    let header = header_text(wire_type);
    let lines = decode_value_lines(this, field, scope, is_oneof);
    let codec = read_codec(field.field_type);
    let read = read_text(codec);
    let store = store_text(this, field, scope, is_oneof);
    let all = lines_of(header) + line_texts(lines);
    let declare = "local value"@;
    let start = "value, cursor = proto.read"@;
    reveal_strlit("");
    reveal_strlit("VarInt");
    reveal_strlit("Buffer");
    reveal_strlit("local value");
    reveal_strlit("local value\n");
    reveal_strlit("value, cursor = proto.read");
    reveal_strlit("(input, cursor)");
    reveal_strlit("local value\nvalue, cursor = proto.readVarInt(input, cursor)");
    reveal_strlit("local value\nvalue, cursor = proto.readBuffer(input, cursor)");
    if wire_type == WireType::I32 || wire_type == WireType::I64 {
        assert(header =~= Seq::<char>::empty());
        assert(lines =~= seq![line(declare), line(read), line(store)]);
        assert(all =~= seq![declare, read, store]);
    } else {
        assert(codec == "VarInt"@ || codec == "Buffer"@);
        assert(header =~= "local value\n"@ + read);
        assert(lines =~= seq![line(store)]);
        lemma_no_char_in_sum(start, codec, '\n');
        lemma_no_char_in_sum(start + codec, "(input, cursor)"@, '\n');
        lemma_split_one(declare, '\n');
        lemma_split_one(read, '\n');
        lemma_split_add(declare, read, '\n');
        assert(header =~= declare + seq!['\n'] + read);
        assert(all =~= seq![declare, read, store]);
    }
    assert(store != declare) by {
        reveal_strlit("table.insert(");
        reveal_strlit(" }");
        reveal_strlit(" = ");
        if field.repeated() {
            assert(store[0] == 't');
        } else if is_oneof {
            assert(store.last() == '}');
        } else {
            assert(store[this.len() + 1int] == '=');
            assert(!declare.contains('='));
            assert(store.contains('='));
        }
    }
    assert(read.subrange(0, start.len() as int) =~= start);
    assert(read[0] == 'v' && declare[0] == 'l');
    assert(declare.len() < start.len());
}

} // verus!
