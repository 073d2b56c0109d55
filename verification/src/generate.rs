//! The code generator: walks the semantic tree and emits textual 64-bit
//! assembly — instruction lines, loop labels, and a data section reserving
//! one 32-bit cell per distinct declared name.
//!
//! Declared names are kept in first-declaration order, so the emitted data
//! section — and with it the whole output — is the same on every run over
//! the same tree.

use vstd::prelude::*;

use crate::ast::AbstractSyntaxTreeNode;
use crate::ast::AbstractSyntaxTreeSymbol;
use crate::ast::AstSymV;
use crate::ast::AstV;
use crate::ast::BinOpType;
use crate::ast::Expr;
use crate::ast::ExprV;
use crate::ast::lemma_ast_children_view;
use crate::ast::ast_children_view;
use crate::numtext::dec_str;
use crate::numtext::dec_str_i32;
use crate::numtext::i32_string;
use crate::numtext::u32_string;

verus! {

/// The fixed output header: a 64-bit text segment and the process entry
/// symbol.
pub open spec fn spec_boilerplate() -> Seq<char> {
    "bits 64\ndefault rel\n\nsegment .text\nglobal mainCRTStartup\n\nmainCRTStartup:\n"@
}

/// The text of one binary operator's instructions, applied to `eax` and
/// `ebx`: arithmetic maps to the matching instruction, division sign-extends
/// the dividend first, and each comparison sets `eax` to 0 or 1.
pub open spec fn op_text(op: BinOpType) -> Seq<char> {
    match op {
        BinOpType::Add => "    add eax, ebx\n"@,
        BinOpType::Subtract => "    sub eax, ebx\n"@,
        BinOpType::Multiply => "    imul eax, ebx\n"@,
        BinOpType::Divide => "    cdq\n"@ + "    idiv ebx\n"@,
        BinOpType::Equal => "    cmp eax, ebx\n"@ + "    sete al\n"@ + "    movzx eax, al\n"@,
        BinOpType::NotEqual => "    cmp eax, ebx\n"@ + "    setne al\n"@ + "    movzx eax, al\n"@,
        BinOpType::LessThan => "    cmp eax, ebx\n"@ + "    setl al\n"@ + "    movzx eax, al\n"@,
        BinOpType::LessThanOrEqual => "    cmp eax, ebx\n"@ + "    setle al\n"@
            + "    movzx eax, al\n"@,
        BinOpType::GreaterThan => "    cmp eax, ebx\n"@ + "    setg al\n"@
            + "    movzx eax, al\n"@,
        BinOpType::GreaterThanOrEqual => "    cmp eax, ebx\n"@ + "    setge al\n"@
            + "    movzx eax, al\n"@,
    }
}

/// The text evaluating a binary expression into `eax`: the left operand
/// into `eax`, saved on the stack across the right operand's evaluation
/// into `ebx`, restored, then the operator applied.
pub open spec fn spec_binary_eval(e: ExprV) -> Seq<char>
    decreases e, 0int,
{
    match e {
        ExprV::BinaryOp { left, op, right } => spec_reg_load(*left, "eax"@) + "    push rax\n"@
            + spec_reg_load(*right, "ebx"@) + "    pop rax\n"@ + op_text(op),
        _ => Seq::empty(),
    }
}

/// The text evaluating an expression into the named register: literals load
/// immediates — a float literal its raw bit pattern — an identifier loads
/// from its cell, and a binary expression is evaluated into `eax` and moved.
pub open spec fn spec_reg_load(e: ExprV, reg: Seq<char>) -> Seq<char>
    decreases e, 1int,
{
    match e {
        ExprV::Int(i) => "    mov "@ + reg + ", "@ + dec_str_i32(i as int) + "\n"@,
        ExprV::Float(bits) => "    mov "@ + reg + ", "@ + dec_str(bits as int) + "\n"@,
        ExprV::Bool(b) => "    mov "@ + reg + ", "@ + (if b {
            "1"@
        } else {
            "0"@
        }) + "\n"@,
        ExprV::Ident(name) => "    mov "@ + reg + ", dword ["@ + name + "]\n"@,
        ExprV::BinaryOp { .. } => spec_binary_eval(e) + ("    mov "@ + reg + ", eax\n"@),
    }
}

/// The text storing an expression's value into the named cell: a bare
/// literal as a direct immediate store, an identifier through `eax`, and a
/// binary expression evaluated then stored.
pub open spec fn spec_var_store(name: Seq<char>, e: ExprV) -> Seq<char> {
    match e {
        ExprV::Int(i) => "    mov dword ["@ + name + "], "@ + dec_str_i32(i as int) + "\n"@,
        ExprV::Float(bits) => "    mov dword ["@ + name + "], "@ + dec_str(bits as int) + "\n"@,
        ExprV::Bool(b) => "    mov dword ["@ + name + "], "@ + (if b {
            "1"@
        } else {
            "0"@
        }) + "\n"@,
        ExprV::Ident(src) => ("    mov eax, dword ["@ + src + "]\n"@) + ("    mov dword ["@ + name
            + "], eax\n"@),
        ExprV::BinaryOp { .. } => spec_binary_eval(e) + ("    mov dword ["@ + name + "], eax\n"@),
    }
}

/// The declared-name list with `name` recorded once, in first-declaration
/// order.
pub open spec fn vars_add(vars: Seq<Seq<char>>, name: Seq<char>) -> Seq<Seq<char>> {
    if vars.contains(name) {
        vars
    } else {
        vars.push(name)
    }
}

/// The data section lines: one reserved 32-bit cell per declared name.
pub open spec fn bss_lines(vars: Seq<Seq<char>>) -> Seq<char>
    decreases vars.len(),
{
    if vars.len() == 0 {
        Seq::empty()
    } else {
        (vars[0] + " resd 1\n"@) + bss_lines(vars.drop_first())
    }
}

/// The data section: absent when nothing was declared.
pub open spec fn spec_bss(vars: Seq<Seq<char>>) -> Seq<char> {
    if vars.len() == 0 {
        Seq::empty()
    } else {
        "\nsegment .bss\n"@ + bss_lines(vars)
    }
}

/// The instruction text of one semantic tree node, and the declared names
/// after it. Only the entry node appends the final `ret` and the data
/// section.
pub open spec fn spec_gen(node: AstV, vars: Seq<Seq<char>>) -> (Seq<char>, Seq<Seq<char>>)
    decreases node, 1int,
{
    match node.symbol {
        AstSymV::Entry => {
            let body = spec_gen_list(node.children, vars);
            (body.0 + "    ret\n"@ + spec_bss(body.1), body.1)
        },
        AstSymV::Exit(e) => {
            match e {
                ExprV::BinaryOp { .. } => (spec_binary_eval(e), vars),
                _ => (spec_reg_load(e, "eax"@), vars),
            }
        },
        AstSymV::VariableDeclaration { name, type_, value } => (
            spec_var_store(name, value),
            vars_add(vars, name),
        ),
        AstSymV::VariableAssignment { name, value } => (spec_var_store(name, value), vars),
        AstSymV::For { iterator_name, iterator_begin, iterator_end, body } => {
            let vars1 = vars_add(vars, iterator_name);
            let head = spec_reg_load(iterator_begin, "eax"@) + ("    mov dword ["@ + iterator_name
                + "], eax\n"@) + ("loop_begin_"@ + iterator_name + ":\n"@) + (
            "    mov eax, dword ["@ + iterator_name + "]\n"@) + spec_reg_load(
                iterator_end,
                "ebx"@,
            ) + "    cmp eax, ebx\n"@ + ("    jg loop_end_"@ + iterator_name + "\n"@);
            let bodyout = spec_gen_list(body, vars1);
            let tail = ("    mov eax, dword ["@ + iterator_name + "]\n"@) + "    inc eax\n"@ + (
            "    mov dword ["@ + iterator_name + "], eax\n"@) + ("    jmp loop_begin_"@
                + iterator_name + "\n"@) + ("loop_end_"@ + iterator_name + ":\n"@);
            (head + bodyout.0 + tail, bodyout.1)
        },
    }
}

/// The instruction text of a node sequence, in order, threading the
/// declared names through.
pub open spec fn spec_gen_list(s: Seq<AstV>, vars: Seq<Seq<char>>) -> (Seq<char>, Seq<Seq<char>>)
    decreases s, 2int,
{
    if s.len() == 0 {
        (Seq::empty(), vars)
    } else {
        let first = spec_gen(s[0], vars);
        let rest = spec_gen_list(s.drop_first(), first.1);
        (first.0 + rest.0, rest.1)
    }
}

/// Emits assembly text for semantic trees, remembering each declared name
/// once, in first-declaration order.
pub struct Generator {
    declared_vars: Vec<String>,
}

/// The image of the declared-name list.
pub(crate) open spec fn vars_view(v: Seq<String>) -> Seq<Seq<char>> {
    Seq::new(v.len(), |k: int| v[k]@)
}

impl View for Generator {
    type V = Seq<Seq<char>>;

    closed spec fn view(&self) -> Seq<Seq<char>> {
        vars_view(self.declared_vars@)
    }
}

/// Appends one fixed piece of text.
fn emit(out: &mut String, a: &str)
    ensures
        final(out)@ == old(out)@ + a@,
{
    out.append(a);
}

/// Appends text around a name.
fn emit_name(out: &mut String, pre: &str, name: &String, post: &str)
    ensures
        final(out)@ == old(out)@ + (pre@ + name@ + post@),
{
    out.append(pre);
    out.append(name.as_str());
    out.append(post);
    proof {
        assert(((old(out)@ + pre@) + name@) + post@ =~= old(out)@ + (pre@ + name@ + post@));
    }
}

/// Appends text around a signed decimal number.
fn emit_i32(out: &mut String, pre: &str, i: i32, post: &str)
    ensures
        final(out)@ == old(out)@ + (pre@ + dec_str_i32(i as int) + post@),
{
    let num = i32_string(i);
    out.append(pre);
    out.append(num.as_str());
    out.append(post);
    proof {
        assert(((old(out)@ + pre@) + dec_str_i32(i as int)) + post@ =~= old(out)@ + (pre@
            + dec_str_i32(i as int) + post@));
    }
}

/// Appends text around an unsigned decimal number.
fn emit_u32(out: &mut String, pre: &str, n: u32, post: &str)
    ensures
        final(out)@ == old(out)@ + (pre@ + dec_str(n as int) + post@),
{
    let num = u32_string(n);
    out.append(pre);
    out.append(num.as_str());
    out.append(post);
    proof {
        assert(((old(out)@ + pre@) + dec_str(n as int)) + post@ =~= old(out)@ + (pre@ + dec_str(
            n as int,
        ) + post@));
    }
}

impl Generator {
    /// A generator with no name declared yet.
    pub fn new() -> (r: Self)
        ensures
            r@ == Seq::<Seq<char>>::empty(),
    {
        let r = Self { declared_vars: Vec::new() };
        proof {
            assert(r@ =~= Seq::<Seq<char>>::empty());
        }
        r
    }

    /// The fixed output header.
    pub fn generate_boilerplate(&mut self) -> (s: String)
        ensures
            *final(self) == *old(self),
            s@ == spec_boilerplate(),
    {
        String::from_str(
            "bits 64\ndefault rel\n\nsegment .text\nglobal mainCRTStartup\n\nmainCRTStartup:\n",
        )
    }

    /// Records a declared name once, keeping first-declaration order.
    fn declare_var(&mut self, name: String)
        ensures
            final(self)@ == vars_add(old(self)@, name@),
    {
        let ghost vv = self@;
        let mut k: usize = 0;
        while k < self.declared_vars.len()
            invariant
                k <= self.declared_vars@.len(),
                vv == vars_view(self.declared_vars@),
                self.declared_vars == old(self).declared_vars,
                forall|j: int| 0 <= j < k ==> vv[j] != name@,
            decreases self.declared_vars@.len() - k,
        {
            if self.declared_vars[k] == name {
                proof {
                    assert(vv.contains(name@)) by {
                        assert(vv[k as int] == name@);
                    }
                }
                return ;
            }
            k += 1;
        }
        proof {
            assert(!vv.contains(name@)) by {
                if vv.contains(name@) {
                    let j = choose|j: int| 0 <= j < vv.len() && vv[j] == name@;
                    assert(vv[j] != name@);
                }
            }
        }
        self.declared_vars.push(name);
        proof {
            assert(vars_view(self.declared_vars@) =~= vv.push(name@));
        }
    }

    /// Appends the instructions of one binary operation: left into `eax`,
    /// saved across the right operand's evaluation into `ebx`, restored,
    /// operator applied; the result is left in `eax`.
    fn generate_binary_op(
        &mut self,
        left: &Expr,
        op: &BinOpType,
        right: &Expr,
        out: &mut String,
    )
        ensures
            *final(self) == *old(self),
            final(out)@ == old(out)@ + (spec_reg_load(left@, "eax"@) + "    push rax\n"@
                + spec_reg_load(right@, "ebx"@) + "    pop rax\n"@ + op_text(*op)),
        decreases spec_binary_height(*left) + spec_binary_height(*right) + 1, 0int,
    {
        let ghost base = out@;
        self.generate_expr_into_register(left, "eax", out);
        emit(out, "    push rax\n");
        self.generate_expr_into_register(right, "ebx", out);
        emit(out, "    pop rax\n");
        match op {
            BinOpType::Add => emit(out, "    add eax, ebx\n"),
            BinOpType::Subtract => emit(out, "    sub eax, ebx\n"),
            BinOpType::Multiply => emit(out, "    imul eax, ebx\n"),
            BinOpType::Divide => {
                emit(out, "    cdq\n");
                emit(out, "    idiv ebx\n");
            },
            BinOpType::Equal => {
                emit(out, "    cmp eax, ebx\n");
                emit(out, "    sete al\n");
                emit(out, "    movzx eax, al\n");
            },
            BinOpType::NotEqual => {
                emit(out, "    cmp eax, ebx\n");
                emit(out, "    setne al\n");
                emit(out, "    movzx eax, al\n");
            },
            BinOpType::LessThan => {
                emit(out, "    cmp eax, ebx\n");
                emit(out, "    setl al\n");
                emit(out, "    movzx eax, al\n");
            },
            BinOpType::LessThanOrEqual => {
                emit(out, "    cmp eax, ebx\n");
                emit(out, "    setle al\n");
                emit(out, "    movzx eax, al\n");
            },
            BinOpType::GreaterThan => {
                emit(out, "    cmp eax, ebx\n");
                emit(out, "    setg al\n");
                emit(out, "    movzx eax, al\n");
            },
            BinOpType::GreaterThanOrEqual => {
                emit(out, "    cmp eax, ebx\n");
                emit(out, "    setge al\n");
                emit(out, "    movzx eax, al\n");
            },
        }
        proof {
            assert(out@ =~= base + (spec_reg_load(left@, "eax"@) + "    push rax\n"@
                + spec_reg_load(right@, "ebx"@) + "    pop rax\n"@ + op_text(*op)));
        }
    }

    /// Appends the instructions evaluating an expression into the named
    /// register.
    fn generate_expr_into_register(&mut self, expr: &Expr, reg: &str, out: &mut String)
        ensures
            *final(self) == *old(self),
            final(out)@ == old(out)@ + spec_reg_load(expr@, reg@),
        decreases spec_binary_height(*expr), 1int,
    {
        let ghost base = out@;
        match expr {
            Expr::Int(i) => {
                emit(out, "    mov ");
                emit(out, reg);
                emit_i32(out, ", ", *i, "\n");
                proof {
                    assert(out@ =~= base + spec_reg_load(expr@, reg@));
                }
            },
            Expr::Float(bits) => {
                emit(out, "    mov ");
                emit(out, reg);
                emit_u32(out, ", ", *bits, "\n");
                proof {
                    assert(out@ =~= base + spec_reg_load(expr@, reg@));
                }
            },
            Expr::Bool(b) => {
                emit(out, "    mov ");
                emit(out, reg);
                emit(out, ", ");
                if *b {
                    emit(out, "1");
                } else {
                    emit(out, "0");
                }
                emit(out, "\n");
                proof {
                    assert(out@ =~= base + spec_reg_load(expr@, reg@));
                }
            },
            Expr::Ident(name) => {
                emit(out, "    mov ");
                emit(out, reg);
                emit_name(out, ", dword [", name, "]\n");
                proof {
                    assert(out@ =~= base + spec_reg_load(expr@, reg@));
                }
            },
            Expr::BinaryOp { left, op, right } => {
                self.generate_binary_op(left, op, right, out);
                emit(out, "    mov ");
                emit(out, reg);
                emit(out, ", eax\n");
                proof {
                    assert(out@ =~= base + spec_reg_load(expr@, reg@));
                }
            },
        }
    }

    /// Appends the instructions storing an expression's value into the
    /// named cell.
    fn match_variable_helper(&mut self, name: &String, value: &Expr, out: &mut String)
        ensures
            *final(self) == *old(self),
            final(out)@ == old(out)@ + spec_var_store(name@, value@),
    {
        let ghost base = out@;
        match value {
            Expr::Int(i) => {
                emit_name(out, "    mov dword [", name, "], ");
                emit_i32(out, "", *i, "\n");
                proof {
                    reveal_strlit("");
                    assert(""@ =~= Seq::<char>::empty());
                    assert(out@ =~= base + spec_var_store(name@, value@));
                }
            },
            Expr::Float(bits) => {
                emit_name(out, "    mov dword [", name, "], ");
                emit_u32(out, "", *bits, "\n");
                proof {
                    reveal_strlit("");
                    assert(""@ =~= Seq::<char>::empty());
                    assert(out@ =~= base + spec_var_store(name@, value@));
                }
            },
            Expr::Bool(b) => {
                emit_name(out, "    mov dword [", name, "], ");
                if *b {
                    emit(out, "1");
                } else {
                    emit(out, "0");
                }
                emit(out, "\n");
                proof {
                    assert(out@ =~= base + spec_var_store(name@, value@));
                }
            },
            Expr::Ident(src) => {
                emit_name(out, "    mov eax, dword [", src, "]\n");
                emit_name(out, "    mov dword [", name, "], eax\n");
                proof {
                    assert(out@ =~= base + spec_var_store(name@, value@));
                }
            },
            Expr::BinaryOp { left, op, right } => {
                self.generate_binary_op(left, op, right, out);
                emit_name(out, "    mov dword [", name, "], eax\n");
                proof {
                    assert(out@ =~= base + spec_var_store(name@, value@));
                }
            },
        }
    }
}

/// The nesting depth of an expression: the measure of the generator's
/// recursion over operands.
pub open spec fn spec_binary_height(e: Expr) -> nat
    decreases e,
{
    match e {
        Expr::BinaryOp { left, op, right } => 1 + spec_binary_height(*left) + spec_binary_height(
            *right,
        ),
        _ => 0,
    }
}

impl Generator {
    /// Walks the semantic tree and returns its assembly text: the
    /// instruction stream and — at the entry node — the final return and
    /// the data section reserving one cell per name declared anywhere in
    /// the tree.
    pub fn generate_x64(&mut self, ast_root: &AbstractSyntaxTreeNode) -> (s: String)
        ensures
            ({
                let o = spec_gen(ast_root@, old(self)@);
                &&& s@ == o.0
                &&& final(self)@ == o.1
            }),
    {
        let mut out = String::new();
        self.gen_node(ast_root, &mut out);
        proof {
            assert(Seq::<char>::empty() + spec_gen(ast_root@, old(self)@).0 =~= spec_gen(
                ast_root@,
                old(self)@,
            ).0);
        }
        out
    }

    /// Appends one semantic tree node's text.
    #[verifier::loop_isolation(false)]
    #[verifier::rlimit(60)]
    fn gen_node(&mut self, node: &AbstractSyntaxTreeNode, out: &mut String)
        ensures
            ({
                let o = spec_gen(node@, old(self)@);
                &&& final(out)@ == old(out)@ + o.0
                &&& final(self)@ == o.1
            }),
        decreases *node,
    {
        let ghost base = out@;
        let ghost vars0 = self@;
        proof {
            lemma_ast_children_view(node.children@);
        }
        match &node.symbol {
            AbstractSyntaxTreeSymbol::AbstractSyntaxTreeSymbolEntry => {
                let ghost cv = ast_children_view(node.children@);
                let ghost mut done: Seq<char> = Seq::empty();
                proof {
                    assert(cv.skip(0) =~= cv);
                    assert(base + done =~= base);
                }
                let mut j: usize = 0;
                while j < node.children.len()
                    invariant
                        j <= node.children@.len(),
                        out@ == base + done,
                        spec_gen_list(cv, vars0) == (
                            (done + spec_gen_list(cv.skip(j as int), self@).0),
                            spec_gen_list(cv.skip(j as int), self@).1,
                        ),
                    decreases node.children@.len() - j,
                {
                    proof {
                        assert(cv.skip(j as int)[0] == cv[j as int]);
                        assert(cv.skip(j as int).drop_first() =~= cv.skip(j as int + 1));
                        assert(cv[j as int] == crate::ast::ast_view(node.children@[j as int]));
                    }
                    let ghost before_vars = self@;
                    self.gen_node(&node.children[j], out);
                    proof {
                        let step = spec_gen(cv[j as int], before_vars);
                        let rest = spec_gen_list(cv.skip(j as int + 1), self@);
                        assert(done + (step.0 + rest.0) =~= (done + step.0) + rest.0);
                        done = done + step.0;
                    }
                    j += 1;
                }
                proof {
                    assert(cv.skip(node.children@.len() as int) =~= Seq::<AstV>::empty());
                    assert(done + Seq::<char>::empty() =~= done);
                }
                emit(out, "    ret\n");
                let ghost vlist = self@;
                if !self.declared_vars.is_empty() {
                    emit(out, "\nsegment .bss\n");
                    let ghost basev = out@;
                    let ghost mut donev: Seq<char> = Seq::empty();
                    proof {
                        assert(vlist.skip(0) =~= vlist);
                        assert(basev + donev =~= basev);
                    }
                    let mut k: usize = 0;
                    while k < self.declared_vars.len()
                        invariant
                            k <= self.declared_vars@.len(),
                            vlist == vars_view(self.declared_vars@),
                            self@ == vlist,
                            out@ == basev + donev,
                            bss_lines(vlist) == donev + bss_lines(vlist.skip(k as int)),
                        decreases self.declared_vars@.len() - k,
                    {
                        proof {
                            assert(vlist.skip(k as int)[0] == vlist[k as int]);
                            assert(vlist.skip(k as int).drop_first() =~= vlist.skip(k as int + 1));
                            assert(vlist[k as int] == self.declared_vars@[k as int]@);
                        }
                        emit_name(out, "", &self.declared_vars[k], " resd 1\n");
                        proof {
                            reveal_strlit("");
                            assert(""@ =~= Seq::<char>::empty());
                            let line = vlist[k as int] + " resd 1\n"@;
                            assert(out@ =~= basev + (donev + line));
                            assert(donev + (line + bss_lines(vlist.skip(k as int + 1))) =~= (donev
                                + line) + bss_lines(vlist.skip(k as int + 1)));
                            donev = donev + line;
                        }
                        k += 1;
                    }
                    proof {
                        assert(vlist.skip(vlist.len() as int) =~= Seq::<Seq<char>>::empty());
                        assert(donev + Seq::<char>::empty() =~= donev);
                        assert(out@ =~= base + (done + "    ret\n"@ + spec_bss(vlist)));
                    }
                } else {
                    proof {
                        assert(out@ =~= base + (done + "    ret\n"@ + spec_bss(vlist)));
                    }
                }
            },
            AbstractSyntaxTreeSymbol::AbstractSyntaxTreeSymbolExit(expr) => {
                match expr {
                    Expr::BinaryOp { left, op, right } => {
                        self.generate_binary_op(left, op, right, out);
                        proof {
                            assert(out@ =~= base + spec_gen(node@, vars0).0);
                        }
                    },
                    _ => {
                        self.generate_expr_into_register(expr, "eax", out);
                    },
                }
            },
            AbstractSyntaxTreeSymbol::AbstractSyntaxTreeSymbolVariableDeclaration {
                name,
                type_,
                value,
            } => {
                self.declare_var(name.clone());
                self.match_variable_helper(name, value, out);
            },
            AbstractSyntaxTreeSymbol::AbstractSyntaxTreeSymbolVariableAssignment {
                name,
                value,
            } => {
                self.match_variable_helper(name, value, out);
            },
            AbstractSyntaxTreeSymbol::AbstractSyntaxTreeSymbolFor {
                iterator_name,
                iterator_begin,
                iterator_end,
                body,
            } => {
                self.declare_var(iterator_name.clone());
                self.generate_expr_into_register(iterator_begin, "eax", out);
                emit_name(out, "    mov dword [", iterator_name, "], eax\n");
                emit_name(out, "loop_begin_", iterator_name, ":\n");
                emit_name(out, "    mov eax, dword [", iterator_name, "]\n");
                self.generate_expr_into_register(iterator_end, "ebx", out);
                emit(out, "    cmp eax, ebx\n");
                emit_name(out, "    jg loop_end_", iterator_name, "\n");
                let ghost vars1 = self@;
                let ghost headed = out@;
                let ghost bv = ast_children_view(body@);
                proof {
                    lemma_ast_children_view(body@);
                    assert(bv.skip(0) =~= bv);
                }
                let ghost mut doneb: Seq<char> = Seq::empty();
                proof {
                    assert(headed + doneb =~= headed);
                }
                let mut j: usize = 0;
                while j < body.len()
                    invariant
                        j <= body@.len(),
                        out@ == headed + doneb,
                        spec_gen_list(bv, vars1) == (
                            (doneb + spec_gen_list(bv.skip(j as int), self@).0),
                            spec_gen_list(bv.skip(j as int), self@).1,
                        ),
                    decreases body@.len() - j,
                {
                    proof {
                        assert(bv.skip(j as int)[0] == bv[j as int]);
                        assert(bv.skip(j as int).drop_first() =~= bv.skip(j as int + 1));
                        assert(bv[j as int] == crate::ast::ast_view(body@[j as int]));
                    }
                    let ghost before_vars = self@;
                    self.gen_node(&body[j], out);
                    proof {
                        let step = spec_gen(bv[j as int], before_vars);
                        let rest = spec_gen_list(bv.skip(j as int + 1), self@);
                        assert(doneb + (step.0 + rest.0) =~= (doneb + step.0) + rest.0);
                        doneb = doneb + step.0;
                    }
                    j += 1;
                }
                proof {
                    assert(bv.skip(body@.len() as int) =~= Seq::<AstV>::empty());
                    assert(doneb + Seq::<char>::empty() =~= doneb);
                }
                emit_name(out, "    mov eax, dword [", iterator_name, "]\n");
                emit(out, "    inc eax\n");
                emit_name(out, "    mov dword [", iterator_name, "], eax\n");
                emit_name(out, "    jmp loop_begin_", iterator_name, "\n");
                emit_name(out, "loop_end_", iterator_name, ":\n");
                proof {
                    assert(out@ =~= base + spec_gen(node@, vars0).0);
                }
            },
        }
    }
}


} // verus!
