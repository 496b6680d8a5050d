//! Conditional statements with any number of branches.
use crate::string_builder::{line, PieceModel, StringBuilder};
use vstd::prelude::*;

verus! {

/// A condition and the statement for it.
#[derive(Debug)]
struct Branch {
    condition: String,
    statement: String,
}

/// A condition and the statement for it.
pub struct BranchModel {
    pub condition: Seq<char>,
    pub statement: Seq<char>,
}

/// Builds one `if` statement, branch by branch.
#[derive(Debug)]
pub struct IfBuilder {
    branches: Vec<Branch>,
}

impl View for IfBuilder {
    type V = Seq<BranchModel>;

    /// The branches so far.
    closed spec fn view(&self) -> Seq<BranchModel> {
        self.branches@.map_values(
            |branch: Branch| BranchModel { condition: branch.condition@, statement: branch.statement@ },
        )
    }
}

/// The lines of the branches: each is a header with `if` or `elseif` and below it,
/// indented, its statement.
pub open spec fn branch_lines(branches: Seq<BranchModel>) -> Seq<PieceModel>
    decreases branches.len(),
{
    if branches.len() == 0 {
        Seq::empty()
    } else {
        let keyword = if branches.len() == 1 {
            "if "@
        } else {
            "elseif "@
        };
        branch_lines(branches.drop_last()).push(line(keyword + branches.last().condition + " then"@)).push(
            PieceModel::Text { depth: 1, text: branches.last().statement },
        )
    }
}

/// The whole statement, nothing where there are no branches.
pub open spec fn if_statement(branches: Seq<BranchModel>) -> Seq<PieceModel> {
    if branches.len() == 0 {
        Seq::empty()
    } else {
        branch_lines(branches).push(line("end"@))
    }
}

impl IfBuilder {
    /// No branches.
    pub fn new() -> (res: IfBuilder)
        ensures
            res@ == Seq::<BranchModel>::empty(),
    {
        let res = IfBuilder { branches: Vec::new() };
        assert(res@ =~= Seq::<BranchModel>::empty());
        res
    }

    /// Adds a branch, which is tried after those that are there.
    pub fn add_condition(&mut self, condition: &str, statement: &str)
        ensures
            final(self)@ == old(self)@.push(BranchModel { condition: condition@, statement: statement@ }),
    {
        self.branches.push(Branch { condition: condition.to_owned(), statement: statement.to_owned() });
        assert(self@ =~= old(self)@.push(BranchModel { condition: condition@, statement: statement@ }));
    }

    /// The statement.
    pub fn into_string_builder(self) -> (res: StringBuilder)
        ensures
            res@ == if_statement(self@),
            res.depth_now() == 0,
    {
        let mut builder = StringBuilder::new();
        let mut i: usize = 0;
        assert(self@.take(0) =~= Seq::<BranchModel>::empty());
        while i < self.branches.len()
            invariant
                i <= self.branches@.len(),
                builder@ == branch_lines(self@.take(i as int)),
                builder.depth_now() == 0,
            decreases self.branches@.len() - i,
        {
            let branch = &self.branches[i];
            let keyword = if i == 0 {
                "if "
            } else {
                "elseif "
            };
            builder.push(keyword.to_owned().concat(branch.condition.as_str()).concat(" then").as_str());
            builder.indent();
            builder.push(branch.statement.as_str());
            builder.dedent();
            assert(self@.take(i + 1).drop_last() =~= self@.take(i as int));
            i += 1;
        }
        assert(self@.take(i as int) =~= self@);
        if i > 0 {
            builder.push("end");
        }
        builder
    }
}

} // verus!
