//! How text is put together: joined, split, replaced, indented, and branch by branch.
use crate::if_builder::{branch_lines, if_statement, BranchModel};
use crate::laws::occurs;
use crate::string_builder::{indentation, line, rendered, PieceModel};
use crate::text::{decimal, digit, digits, joined, replaced, split};
use vstd::prelude::*;

verus! {

/// Nothing joined is nothing, one part joined is that part, and two lists joined are
/// joined with one separator between them.
pub proof fn law_joining_two_lists(a: Seq<Seq<char>>, b: Seq<Seq<char>>, part: Seq<char>, sep: Seq<char>)
    ensures
        joined(Seq::empty(), sep) == Seq::<char>::empty(),
        joined(seq![part], sep) == part,
        a.len() > 0 && b.len() > 0 ==> joined(a + b, sep) == joined(a, sep) + sep + joined(b, sep),
    decreases b.len(),
{
    if a.len() > 0 && b.len() > 0 {
        let rest = b.drop_last();
        assert((a + b).drop_last() =~= a + rest);
        if rest.len() == 0 {
            assert(a + rest =~= a);
        } else {
            law_joining_two_lists(a, rest, part, sep);
            assert(joined(a + b, sep) =~= joined(a, sep) + sep + joined(b, sep));
        }
    }
}

/// A text split at a separator comes to its parts, which joined again are the text, and
/// none of which holds the separator.
pub proof fn law_splitting_is_undone_by_joining(s: Seq<char>, sep: char)
    ensures
        split(s, sep).len() > 0,
        joined(split(s, sep), seq![sep]) == s,
        forall|i: int| 0 <= i < split(s, sep).len() ==> !(#[trigger] split(s, sep)[i]).contains(sep),
    decreases s.len(),
{
    let parts = split(s, sep);
    if s.len() > 0 {
        let before = split(s.drop_last(), sep);
        law_splitting_is_undone_by_joining(s.drop_last(), sep);
        if s.last() == sep {
            assert(parts.drop_last() =~= before);
            assert(joined(parts, seq![sep]) =~= s);
        } else {
            assert(parts.drop_last() =~= before.drop_last());
            assert(parts.last() == before.last().push(s.last()));
            assert(before.last() == before[before.len() - 1]);
            assert forall|i: int| 0 <= i < parts.len() implies !(#[trigger] parts[i]).contains(sep) by {
                if i < parts.len() - 1 {
                    assert(parts[i] == before[i]);
                } else if parts[i].contains(sep) {
                    let k = parts[i].index_of(sep);
                    assert(before.last()[k] == sep);
                }
            }
            assert(joined(parts, seq![sep]) =~= joined(before, seq![sep]).push(s.last()));
            assert(joined(parts, seq![sep]) =~= s);
        }
    }
}

/// Behind a separator another part starts.
pub proof fn law_splitting_at_a_separator(a: Seq<char>, sep: char, b: Seq<char>)
    requires
        !b.contains(sep),
    ensures
        split(b, sep) == seq![b],
        split(a + seq![sep] + b, sep) == split(a, sep).push(b),
    decreases b.len(),
{
    let s = a + seq![sep] + b;
    if b.len() == 0 {
        assert(s.drop_last() =~= a);
        assert(b =~= Seq::<char>::empty());
    } else {
        let rest = b.drop_last();
        if rest.contains(sep) {
            let k = rest.index_of(sep);
            assert(b[k] == sep);
        }
        assert(b.contains(b[b.len() - 1]));
        law_splitting_at_a_separator(a, sep, rest);
        assert(s.drop_last() =~= a + seq![sep] + rest);
        assert(rest.push(b.last()) =~= b);
        assert(split(b, sep) =~= seq![b]);
        assert(split(s, sep) =~= split(a, sep).push(b));
    }
}

/// Replacing leaves a text as it is that does not hold the pattern, and otherwise puts the
/// replacement in place of the first occurrence and goes on behind it.
pub proof fn law_replacing_from_the_left(a: Seq<char>, b: Seq<char>, from: Seq<char>, to: Seq<char>)
    requires
        from.len() > 0,
    ensures
        !occurs(from, a) ==> replaced(a, from, to) == a,
        !occurs(from, (a + from).drop_last()) ==> replaced(a + from + b, from, to) == a + to + replaced(b, from, to),
    decreases a.len(),
{
    let s = a + from + b;
    if !occurs(from, a) {
        if from.is_prefix_of(a) {
            assert(a.subrange(0, 0int + from.len()) == from);
        }
        if a.len() > 0 {
            lemma_behind_the_first(a, from);
            law_replacing_from_the_left(a.skip(1), b, from, to);
            assert(replaced(a, from, to) =~= a);
        }
    }
    if !occurs(from, (a + from).drop_last()) {
        if a.len() == 0 {
            assert(s =~= from + b);
            assert(s.skip(from.len() as int) =~= b);
            assert(s.subrange(0, from.len() as int) =~= from);
            assert(a + to =~= to);
        } else {
            let whole = (a + from).drop_last();
            lemma_behind_the_first(whole, from);
            assert(whole.skip(1) =~= (a.skip(1) + from).drop_last());
            law_replacing_from_the_left(a.skip(1), b, from, to);
            assert(s.skip(1) =~= a.skip(1) + from + b);
            if from.is_prefix_of(s) {
                assert(whole.subrange(0, 0int + from.len()) =~= s.subrange(0, from.len() as int));
            }
            assert(replaced(s, from, to) =~= a + to + replaced(b, from, to));
        }
    }
}

proof fn lemma_behind_the_first(s: Seq<char>, pattern: Seq<char>)
    requires
        s.len() > 0,
        !occurs(pattern, s),
    ensures
        !occurs(pattern, s.skip(1)),
{
    if occurs(pattern, s.skip(1)) {
        let i = choose|i: int|
            0 <= i && i + pattern.len() <= s.skip(1).len() && #[trigger] s.skip(1).subrange(i, i + pattern.len())
                == pattern;
        assert(s.subrange(i + 1, i + 1 + pattern.len()) =~= s.skip(1).subrange(i, i + pattern.len()));
    }
}

/// An empty pattern stands before every character and at the end.
pub proof fn law_replacing_an_empty_pattern(s: Seq<char>, c: char, to: Seq<char>)
    ensures
        replaced(Seq::empty(), Seq::empty(), to) == to,
        replaced(seq![c] + s, Seq::empty(), to) == to + seq![c] + replaced(s, Seq::empty(), to),
{
    assert((seq![c] + s).skip(1) =~= s);
    assert(to.push(c) =~= to + seq![c]);
}

/// A piece keeps its depth where its text is replaced, and an empty line stays one.
pub proof fn law_replacing_in_a_piece(depth: nat, text: Seq<char>, from: Seq<char>, to: Seq<char>)
    ensures
        PieceModel::Blank.replaced(from, to) == PieceModel::Blank,
        (PieceModel::Text { depth, text }).replaced(from, to) == (PieceModel::Text {
            depth,
            text: replaced(text, from, to),
        }),
        line(text) == (PieceModel::Text { depth: 0, text }),
{
}

/// Each line of a piece stands behind as many tabs as the piece is deep.
pub proof fn law_lines_are_indented(depth: nat, first: Seq<char>, rest: Seq<char>)
    requires
        !first.contains('\n'),
    ensures
        ({
            let tabs = indentation(depth);
            &&& tabs.len() == depth
            &&& forall|i: int| 0 <= i < depth ==> tabs[i] == '\t'
            &&& (PieceModel::Text { depth, text: first }).rendered() == tabs + first
            &&& (PieceModel::Text { depth, text: first + seq!['\n'] + rest }).rendered() == tabs + first + seq!['\n']
                + (PieceModel::Text { depth, text: rest }).rendered()
            &&& PieceModel::Blank.rendered() == Seq::<char>::empty()
        }),
{
    reveal_strlit("\n");
    let pattern = "\n"@;
    assert(pattern =~= seq!['\n']);
    if occurs(pattern, first) {
        let i = choose|i: int|
            0 <= i && i + pattern.len() <= first.len() && #[trigger] first.subrange(i, i + pattern.len()) == pattern;
        assert(first.subrange(i, i + 1)[0] == '\n');
        assert(first[i] == '\n');
    }
    assert((first + pattern).drop_last() =~= first);
    law_replacing_from_the_left(first, rest, pattern, pattern + indentation(depth));
    let text = first + seq!['\n'] + rest;
    assert((PieceModel::Text { depth, text }).rendered() =~= indentation(depth) + first + seq!['\n']
        + (PieceModel::Text { depth, text: rest }).rendered());
}

/// Two lists of pieces come to the text of the first and below it that of the second.
pub proof fn law_pieces_stand_one_below_the_other(a: Seq<PieceModel>, b: Seq<PieceModel>, piece: PieceModel)
    ensures
        rendered(Seq::empty()) == Seq::<char>::empty(),
        rendered(seq![piece]) == piece.rendered(),
        a.len() > 0 && b.len() > 0 ==> rendered(a + b) == rendered(a) + seq!['\n'] + rendered(b),
{
    let render = |piece: PieceModel| piece.rendered();
    reveal_strlit("\n");
    assert("\n"@ =~= seq!['\n']);
    assert(Seq::<PieceModel>::empty().map_values(render) =~= Seq::empty());
    assert(seq![piece].map_values(render) =~= seq![piece.rendered()]);
    assert((a + b).map_values(render) =~= a.map_values(render) + b.map_values(render));
    law_joining_two_lists(a.map_values(render), b.map_values(render), piece.rendered(), "\n"@);
}

/// A statement without branches is empty. The first branch opens the statement with `if`,
/// each further one goes on with `elseif` where the statement ended, and every statement
/// stands indented below the condition that it is for.
pub proof fn law_branches_follow_one_another(branches: Seq<BranchModel>, branch: BranchModel)
    ensures
        if_statement(Seq::empty()) == Seq::<PieceModel>::empty(),
        if_statement(seq![branch]) == seq![
            line("if "@ + branch.condition + " then"@),
            PieceModel::Text { depth: 1, text: branch.statement },
            line("end"@),
        ],
        branches.len() > 0 ==> if_statement(branches).last() == line("end"@),
        branches.len() > 0 ==> if_statement(branches.push(branch)) == if_statement(branches).drop_last() + seq![
            line("elseif "@ + branch.condition + " then"@),
            PieceModel::Text { depth: 1, text: branch.statement },
            line("end"@),
        ],
{
    assert(seq![branch].drop_last() =~= Seq::empty());
    assert(branch_lines(seq![branch].drop_last()) =~= Seq::empty());
    assert(branches.push(branch).drop_last() =~= branches);
    if branches.len() > 0 {
        assert(if_statement(branches).drop_last() =~= branch_lines(branches));
    }
}

/// The number that digits stand for.
pub open spec fn numeral(s: Seq<char>) -> int
    decreases s.len(),
{
    if s.len() == 0 {
        0
    } else {
        numeral(s.drop_last()) * 10 + (s.last() as int - '0' as int)
    }
}

/// The digits of a number stand for it, and do not start with a zero unless the number is
/// zero.
proof fn lemma_digits_stand_for_their_number(n: nat)
    ensures
        numeral(digits(n)) == n,
        digits(n).len() > 0,
        n > 0 ==> digits(n)[0] != '0',
        n == 0 ==> digits(n).len() == 1,
        forall|i: int| 0 <= i < digits(n).len() ==> '0' <= #[trigger] digits(n)[i] <= '9',
    decreases n,
{
    let d = digit((n % 10) as int);
    assert(d as int - '0' as int == n % 10);
    if n < 10 {
        assert(digits(n).drop_last() =~= Seq::empty());
        assert(numeral(digits(n).drop_last()) == 0);
        assert(digits(n).last() == digit(n as int));
    } else {
        lemma_digits_stand_for_their_number(n / 10);
        assert(digits(n).drop_last() =~= digits(n / 10));
        assert(digits(n).last() == d);
    }
}

/// A number in decimal notation: a minus sign where it is negative, and digits without a
/// needless zero that stand for its magnitude.
pub proof fn law_decimals_stand_for_their_number(n: int)
    ensures
        n < 0 ==> decimal(n)[0] == '-' && numeral(decimal(n).skip(1)) == -n,
        n < 0 ==> decimal(n).len() > 1 && decimal(n)[1] != '0',
        n >= 0 ==> numeral(decimal(n)) == n && decimal(n).len() > 0,
        n > 0 ==> decimal(n)[0] != '0',
        n == 0 ==> decimal(n) == seq!['0'],
        forall|i: int|
            0 <= i < decimal(n).len() && (n < 0 ==> i > 0) ==> '0' <= #[trigger] decimal(n)[i] <= '9',
{
    if n < 0 {
        let magnitude = (-n) as nat;
        lemma_digits_stand_for_their_number(magnitude);
        assert(decimal(n).skip(1) =~= digits(magnitude));
        assert forall|i: int| 0 < i < decimal(n).len() implies '0' <= #[trigger] decimal(n)[i] <= '9' by {
            assert(decimal(n)[i] == digits(magnitude)[i - 1]);
        }
    } else {
        lemma_digits_stand_for_their_number(n as nat);
    }
}

} // verus!
