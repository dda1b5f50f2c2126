use vstd::prelude::*;
use vstd::string::StringExecFns;

use crate::mode::Mode;
use crate::request::{ReqV, Request};

verus! {

/// One generated acquisition statement: the unit of output that, when
/// spliced into the surrounding program and executed, acquires the
/// named resource under the one mode it was emitted for.
#[derive(Debug)]
pub struct Statement {
    pub target: String,
    pub mode: Mode,
}

/// The text of the acquisition statement for one target and mode. The
/// statement binds a view of `self.<target>`: a shared read guard for
/// `Read`, an owned copy of the read value for `ReadClone`, an
/// exclusive write guard for `Write`, and a mutual-exclusion guard for
/// `Lock`; each fails the surrounding operation if the underlying
/// primitive cannot be acquired.
pub open spec fn spec_statement_text(name: Seq<char>, mode: Mode) -> Seq<char> {
    match mode {
        Mode::Read => "let "@ + name + " = self."@ + name + ".read().expect(\"must read\");"@,
        Mode::ReadClone => "let "@ + name + " = self."@ + name
            + ".read().expect(\"must read\").clone();"@,
        Mode::Write => "let mut "@ + name + " = self."@ + name
            + ".write().expect(\"must write\");"@,
        Mode::Lock => "let mut "@ + name + " = self."@ + name
            + ".lock().expect(\"must get lock\");"@,
    }
}

/// The texts of a statement sequence, in order.
pub open spec fn stmt_texts(stmts: Seq<Statement>) -> Seq<Seq<char>> {
    stmts.map_values(|s: Statement| spec_statement_text(s.target@, s.mode))
}

/// The statement texts owed to a plan: one per entry, in plan order.
pub open spec fn spec_emit(plan: Seq<ReqV>) -> Seq<Seq<char>> {
    plan.map_values(|r: ReqV| spec_statement_text(r.name, r.mode))
}

/// The emitted output as one text: the statement texts in plan order,
/// each followed by a line break, nothing reordered and nothing merged.
pub open spec fn spec_plan_text(texts: Seq<Seq<char>>) -> Seq<char>
    decreases texts.len(),
{
    if texts.len() == 0 {
        Seq::<char>::empty()
    } else {
        spec_plan_text(texts.drop_last()) + texts.last() + "\n"@
    }
}

impl Statement {
    /// Render this statement's text, picked by the mode alone.
    pub fn render(&self) -> (s: String)
        ensures
            s@ == spec_statement_text(self.target@, self.mode),
    {
        let mut s = String::new();
        match self.mode {
            Mode::Read => {
                s.append("let ");
                s.append(self.target.as_str());
                s.append(" = self.");
                s.append(self.target.as_str());
                s.append(".read().expect(\"must read\");");
            },
            Mode::ReadClone => {
                s.append("let ");
                s.append(self.target.as_str());
                s.append(" = self.");
                s.append(self.target.as_str());
                s.append(".read().expect(\"must read\").clone();");
            },
            Mode::Write => {
                s.append("let mut ");
                s.append(self.target.as_str());
                s.append(" = self.");
                s.append(self.target.as_str());
                s.append(".write().expect(\"must write\");");
            },
            Mode::Lock => {
                s.append("let mut ");
                s.append(self.target.as_str());
                s.append(" = self.");
                s.append(self.target.as_str());
                s.append(".lock().expect(\"must get lock\");");
            },
        }
        proof {
            assert(s@ =~= spec_statement_text(self.target@, self.mode));
        }
        s
    }
}

/// Map each plan entry to its acquisition statement — the Statement
/// Emitter. Statement `i` is for plan entry `i`: the same resource,
/// the statement form picked purely by that entry's mode. No
/// reordering, batching or deduplication happens here; statement order
/// is exactly plan order, which is the runtime acquisition order.
pub fn emit(plan: &Vec<Request>) -> (stmts: Vec<Statement>)
    ensures
        stmts@.len() == plan@.len(),
        forall|i: int|
            0 <= i < plan@.len() ==> (#[trigger] stmts@[i]).target@ == plan@[i].name@
                && stmts@[i].mode == plan@[i].mode,
{
    let mut stmts: Vec<Statement> = Vec::new();
    let mut i: usize = 0;
    while i < plan.len()
        invariant
            i <= plan@.len(),
            stmts@.len() == i,
            forall|k: int|
                0 <= k < i ==> (#[trigger] stmts@[k]).target@ == plan@[k].name@ && stmts@[k].mode
                    == plan@[k].mode,
        decreases plan@.len() - i,
    {
        let r = &plan[i];
        stmts.push(Statement { target: r.name.clone(), mode: r.mode });
        i = i + 1;
    }
    stmts
}

/// Render a whole statement sequence into the output text, in order.
pub fn render_plan(stmts: &Vec<Statement>) -> (out: String)
    ensures
        out@ == spec_plan_text(stmt_texts(stmts@)),
{
    let mut out = String::new();
    let mut i: usize = 0;
    proof {
        assert(stmt_texts(stmts@).take(0) =~= Seq::<Seq<char>>::empty());
    }
    while i < stmts.len()
        invariant
            i <= stmts@.len(),
            out@ == spec_plan_text(stmt_texts(stmts@).take(i as int)),
        decreases stmts@.len() - i,
    {
        let st = &stmts[i];
        let t = st.render();
        out.append(t.as_str());
        out.append("\n");
        proof {
            let txts = stmt_texts(stmts@);
            assert(txts.take(i as int + 1).drop_last() =~= txts.take(i as int));
            assert(txts.take(i as int + 1).last() == txts[i as int]);
        }
        i = i + 1;
    }
    proof {
        assert(stmt_texts(stmts@).take(stmts@.len() as int) =~= stmt_texts(stmts@));
    }
    out
}

} // verus!
