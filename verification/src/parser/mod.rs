//! The parser: a recursive descent over the tokens of a program, which
//! allocates the nodes of the program in the machine.

mod error;
pub mod grammar;

use vstd::prelude::*;
use crate::vm::{Heliqs, HeliqsV, Epiq, EpiqV, NodeId, Tokn, TokenV, BindingV};
use crate::text::{text_eq, parse_i64};
use crate::lexer::{self, Lexer};
use self::grammar::{
    Parsed, at, rest, new_node, otag_epiq, p_aexp, p_tpiq_single, p_tpiq, p_mpiq, p_cons,
    p_expression, p_list, p_list_internal, p_accessing_term, p_accessor, p_term, p_apply,
    p_resolve, p_literal, prim_names, add_prim, add_prims, setup, lemma_setup, spec_parse, UNIT_INDX,
};

pub use self::error::Error;

verus! {

/// Where the parser is: before the first token, at a token, or past the last.
pub enum TokenState {
    SOT,
    Has(Tokn),
    EOT,
}

/// What a parsing function gives: the position after what it read, and the
/// node it built.
pub type Step = (usize, Result<NodeId, Error>);

/// `r` is what `expected` says, it does not go back nor past the last token,
/// a success reads at least one token, and the node built exists.
pub open spec fn step_ok(toks: Seq<TokenV>, vm0: HeliqsV, vm1: HeliqsV, pos: nat, r: Step, expected: Parsed) -> bool {
    &&& (vm1, r.0 as nat, r.1) == expected
    &&& pos <= r.0 <= toks.len()
    &&& r.1 is Ok ==> pos < r.0
    &&& vm0.nodes.len() <= vm1.nodes.len()
    &&& r.1 matches Ok(i) ==> i < vm1.nodes.len()
    &&& vm0.entry_ok() ==> vm1.entry_ok()
    &&& kept(vm0, vm1)
}

/// Parsing only adds nodes: the nodes already there and the frames stay as
/// they were.
pub open spec fn kept(vm0: HeliqsV, vm1: HeliqsV) -> bool {
    &&& vm1.frames == vm0.frames
    &&& vm0.nodes.len() <= vm1.nodes.len()
    &&& forall|j: int| 0 <= j < vm0.nodes.len() ==> #[trigger] vm1.nodes[j] == vm0.nodes[j]
}

/// A parser over the tokens of a program.
pub struct Parser {
    tokens: Vec<Tokn>,
    end: Option<lexer::Error>,
}

impl Parser {
    /// The tokens.
    pub closed spec fn toks(&self) -> Seq<TokenV> {
        self.tokens@.map_values(|t: Tokn| t@)
    }

    /// The lexer's error after the last token, if it stopped on one.
    pub closed spec fn lex_end(&self) -> Option<lexer::Error> {
        self.end
    }

    /// A parser over every token that `lexer` reads.
    pub fn new(lexer: Lexer) -> (p: Parser)
        requires
            lexer.wf(),
        ensures
            (p.toks(), p.lex_end()) == lexer::spec_tokenize_all(lexer.scanners(), lexer@),
    {
        let mut lexer = lexer;
        let (tokens, end) = lexer.tokenize_all();
        Parser { tokens, end }
    }

    /// Where the parser is at `pos`.
    pub fn token(&self, pos: usize) -> (t: TokenState)
        ensures
            t matches TokenState::Has(tok) ==> at(self.toks(), pos as nat) == Some(tok@),
            t is EOT <==> at(self.toks(), pos as nat) is None,
            !(t is SOT),
    {
        if pos < self.tokens.len() {
            TokenState::Has(self.tokens[pos].copy())
        } else {
            TokenState::EOT
        }
    }

    fn token_at(&self, pos: usize) -> (t: Option<&Tokn>)
        ensures
            self.toks().len() <= usize::MAX,
            t is Some ==> pos < self.toks().len(),
            match t {
                Some(tok) => at(self.toks(), pos as nat) == Some(tok@),
                None => at(self.toks(), pos as nat) is None,
            },
    {
        if pos < self.tokens.len() {
            Some(&self.tokens[pos])
        } else {
            None
        }
    }

    /// Parses the program: allocates the unit node and the primitive
    /// functions (each bound to its name), then the nodes of the program, and
    /// returns the node of the whole program.  In a machine that had no node
    /// and one empty frame, the unit node is node 0 and the primitives follow
    /// it, each bound to its name.
    pub fn parse(&self, vm: &mut Heliqs) -> (r: Result<NodeId, Error>)
        requires
            old(vm).wf(),
            old(vm)@.nodes.len() + 16 < usize::MAX,
        ensures
            final(vm).wf(),
        old(vm)@.closed() ==> final(vm)@.closed(),
            old(vm)@.closed() ==> final(vm)@.closed(),
            (final(vm)@, r) == spec_parse(self.toks(), self.lex_end(), old(vm)@),
            r matches Ok(i) ==> i < final(vm)@.nodes.len(),
            old(vm)@.entry_ok() ==> final(vm)@.entry_ok(),
            old(vm)@.nodes.len() == 0 && old(vm)@.frames == seq![Seq::<BindingV>::empty()] ==> {
                &&& final(vm)@.nodes.len() >= 9
                &&& final(vm)@.nodes[0] == EpiqV::Unit
                &&& forall|k: int| 0 <= k < 8 ==> #[trigger] final(vm)@.nodes[k + 1] == EpiqV::Prim(prim_names()[k])
                &&& forall|k: int| 0 <= k < 8
                    ==> #[trigger] final(vm)@.resolve(prim_names()[k]) == Some((k + 1) as NodeId)
            },
    {
        let ghost start = old(vm)@;
        self.add_unit(vm);
        self.add_prim(vm, "decr");
        self.add_prim(vm, "ltoreq");
        self.add_prim(vm, "eq");
        self.add_prim(vm, "plus");
        self.add_prim(vm, "minus");
        self.add_prim(vm, "print");
        self.add_prim(vm, "concat");
        self.add_prim(vm, "dbqt");
        proof {
            reveal_strlit("decr");
            reveal_strlit("ltoreq");
            reveal_strlit("eq");
            reveal_strlit("plus");
            reveal_strlit("minus");
            reveal_strlit("print");
            reveal_strlit("concat");
            reveal_strlit("dbqt");
            let names = prim_names();
            assert("decr"@ =~= names[0]);
            assert("ltoreq"@ =~= names[1]);
            assert("eq"@ =~= names[2]);
            assert("plus"@ =~= names[3]);
            assert("minus"@ =~= names[4]);
            assert("print"@ =~= names[5]);
            assert("concat"@ =~= names[6]);
            assert("dbqt"@ =~= names[7]);
            reveal_with_fuel(add_prims, 9);
        }
        let ghost set_up = vm@;
        let (_, r) = self.parse_aexp(vm, 0);
        proof {
            if start.nodes.len() == 0 && start.frames == seq![Seq::<BindingV>::empty()] {
                lemma_setup(start);
                assert(set_up == setup(start));
                assert forall|k: int| 0 <= k < 8 implies #[trigger] vm@.nodes[k + 1] == EpiqV::Prim(prim_names()[k]) by {
                    assert(vm@.nodes[k + 1] == set_up.nodes[k + 1]);
                }
                assert(vm@.nodes[0] == set_up.nodes[0]);
                assert(vm@.frames == set_up.frames);
                assert forall|k: int| 0 <= k < 8 implies #[trigger] vm@.resolve(prim_names()[k]) == Some((k + 1) as NodeId) by {
                    assert(vm@.resolve(prim_names()[k]) == set_up.resolve(prim_names()[k]));
                }
            }
        }
        match r {
            Ok(i) => Ok(i),
            Err(e) => match self.end {
                Some(le) => Err(Error::Lexer(le)),
                None => Err(e),
            },
        }
    }

    fn add_unit(&self, vm: &mut Heliqs)
        requires
            old(vm).wf(),
            old(vm)@.nodes.len() < usize::MAX,
        ensures
            final(vm).wf(),
        old(vm)@.closed() ==> final(vm)@.closed(),
            old(vm)@.closed() ==> final(vm)@.closed(),
            final(vm)@ == old(vm)@.with_node(EpiqV::Unit),
    {
        let _unit = vm.allocate(Epiq::Unit);
    }

    fn add_prim(&self, vm: &mut Heliqs, name: &str)
        requires
            old(vm).wf(),
            old(vm)@.nodes.len() < usize::MAX,
        ensures
            final(vm).wf(),
        old(vm)@.closed() ==> final(vm)@.closed(),
            old(vm)@.closed() ==> final(vm)@.closed(),
            final(vm)@ == add_prim(old(vm)@, name@),
    {
        let prim = vm.allocate(Epiq::Prim(name.to_owned()));
        vm.define(name, prim);
    }

    fn parse_aexp(&self, vm: &mut Heliqs, pos: usize) -> (r: Step)
        requires
            old(vm).wf(),
            old(vm)@.nodes.len() >= 1,
            pos <= self.toks().len(),
        ensures
            final(vm).wf(),
        old(vm)@.closed() ==> final(vm)@.closed(),
            old(vm)@.closed() ==> final(vm)@.closed(),
            step_ok(self.toks(), old(vm)@, final(vm)@, pos as nat, r, p_aexp(self.toks(), old(vm)@, pos as nat)),
        decreases rest(self.toks(), pos as nat), 5nat,
    {
        match self.token_at(pos) {
            Some(Tokn::Sgqt) => self.parse_tpiq_single(vm, pos),
            Some(Tokn::Pipe) => self.parse_tpiq(vm, pos),
            Some(Tokn::Crrt) => self.parse_mpiq(vm, pos),
            _ => {
                let (a, r) = self.parse_expression(vm, pos);
                match r {
                    Ok(l) => if matches!(self.token_at(a), Some(Tokn::Coln)) {
                        self.parse_cons(vm, a, l)
                    } else {
                        (a, Ok(l))
                    },
                    Err(e) => (a, Err(e)),
                }
            },
        }
    }

    fn parse_tpiq_single(&self, vm: &mut Heliqs, pos: usize) -> (r: Step)
        requires
            old(vm).wf(),
            old(vm)@.nodes.len() >= 1,
            pos <= self.toks().len(),
        ensures
            final(vm).wf(),
        old(vm)@.closed() ==> final(vm)@.closed(),
            old(vm)@.closed() ==> final(vm)@.closed(),
            step_ok(self.toks(), old(vm)@, final(vm)@, pos as nat, r, p_tpiq_single(self.toks(), old(vm)@, pos as nat)),
        decreases rest(self.toks(), pos as nat), 4nat,
    {
        if !matches!(self.token_at(pos), Some(Tokn::Sgqt)) {
            return (pos, Err(Error::Unexpected(pos)));
        }
        match self.token_at(pos + 1) {
            Some(Tokn::Otag(o)) => {
                let (a, r) = self.parse_aexp(vm, pos + 2);
                match r {
                    Ok(q) => {
                        let e = match_otag(o, UNIT_INDX, q);
                        new_node_exec(vm, a, e)
                    },
                    Err(e) => (a, Err(e)),
                }
            },
            _ => (pos + 1, Err(Error::TpiqSingle(pos + 1))),
        }
    }

    #[verifier::spinoff_prover]
    #[verifier::rlimit(60)]
    fn parse_tpiq(&self, vm: &mut Heliqs, pos: usize) -> (r: Step)
        requires
            old(vm).wf(),
            old(vm)@.nodes.len() >= 1,
            pos <= self.toks().len(),
        ensures
            final(vm).wf(),
        old(vm)@.closed() ==> final(vm)@.closed(),
            old(vm)@.closed() ==> final(vm)@.closed(),
            step_ok(self.toks(), old(vm)@, final(vm)@, pos as nat, r, p_tpiq(self.toks(), old(vm)@, pos as nat)),
        decreases rest(self.toks(), pos as nat), 4nat,
    {
        if !matches!(self.token_at(pos), Some(Tokn::Pipe)) {
            return (pos, Err(Error::Unexpected(pos)));
        }
        match self.token_at(pos + 1) {
            Some(Tokn::Otag(o)) => {
                let (a, r1) = self.parse_aexp(vm, pos + 2);
                match r1 {
                    Ok(p) => {
                        let (b, r2) = self.parse_aexp(vm, a);
                        match r2 {
                            Ok(q) => {
                                let e = match_otag(o, p, q);
                                new_node_exec(vm, b, e)
                            },
                            Err(e) => (b, Err(e)),
                        }
                    },
                    Err(e) => (a, Err(e)),
                }
            },
            Some(Tokn::Pipe) => {
                let (a, r) = self.parse_aexp(vm, pos + 2);
                match r {
                    Ok(q) => new_node_exec(vm, a, Epiq::Quot(UNIT_INDX, q)),
                    Err(e) => (a, Err(e)),
                }
            },
            _ => (pos + 1, Err(Error::Tpiq(pos + 1))),
        }
    }

    fn parse_mpiq(&self, vm: &mut Heliqs, pos: usize) -> (r: Step)
        requires
            old(vm).wf(),
            old(vm)@.nodes.len() >= 1,
            pos <= self.toks().len(),
        ensures
            final(vm).wf(),
        old(vm)@.closed() ==> final(vm)@.closed(),
            old(vm)@.closed() ==> final(vm)@.closed(),
            step_ok(self.toks(), old(vm)@, final(vm)@, pos as nat, r, p_mpiq(self.toks(), old(vm)@, pos as nat)),
        decreases rest(self.toks(), pos as nat), 3nat,
    {
        if !matches!(self.token_at(pos), Some(Tokn::Crrt)) {
            return (pos, Err(Error::Unexpected(pos)));
        }
        proof {
            reveal_strlit("T");
            reveal_strlit("F");
            assert("T"@ =~= seq!['T']);
            assert("F"@ =~= seq!['F']);
        }
        match self.token_at(pos + 1) {
            Some(Tokn::Otag(o)) => {
                if text_eq(o, "T") {
                    new_node_exec(vm, pos + 2, Epiq::Tval)
                } else if text_eq(o, "F") {
                    new_node_exec(vm, pos + 2, Epiq::Fval)
                } else {
                    let (a, r1) = self.parse_aexp(vm, pos + 2);
                    match r1 {
                        Ok(p) => {
                            let (b, r2) = self.parse_aexp(vm, a);
                            match r2 {
                                Ok(q) => new_node_exec(vm, b, Epiq::Mpiq { o: o.clone(), p, q }),
                                Err(e) => (b, Err(e)),
                            }
                        },
                        Err(e) => (a, Err(e)),
                    }
                }
            },
            Some(Tokn::Lbkt) => {
                let (a, r) = self.parse_list(vm, pos + 1);
                match r {
                    Ok(q) => {
                        proof {
                            reveal_strlit(">");
                            assert(">"@ =~= seq!['>']);
                        }
                        new_node_exec(vm, a, Epiq::Mpiq { o: String::from_str(">"), p: UNIT_INDX, q })
                    },
                    Err(e) => (a, Err(e)),
                }
            },
            _ => (pos + 1, Err(Error::Mpiq(pos + 1))),
        }
    }

    fn parse_cons(&self, vm: &mut Heliqs, pos: usize, l: NodeId) -> (r: Step)
        requires
            old(vm).wf(),
            old(vm)@.nodes.len() >= 1,
            l < old(vm)@.nodes.len(),
            pos <= self.toks().len(),
        ensures
            final(vm).wf(),
        old(vm)@.closed() ==> final(vm)@.closed(),
            old(vm)@.closed() ==> final(vm)@.closed(),
            step_ok(self.toks(), old(vm)@, final(vm)@, pos as nat, r, p_cons(self.toks(), old(vm)@, pos as nat, l)),
        decreases rest(self.toks(), pos as nat), 0nat,
    {
        if !matches!(self.token_at(pos), Some(Tokn::Coln)) {
            return (pos, Err(Error::Unexpected(pos)));
        }
        let (a, r) = self.parse_expression(vm, pos + 1);
        match r {
            Ok(q) => if matches!(self.token_at(a), Some(Tokn::Coln)) {
                let (b, r2) = self.parse_cons(vm, a, q);
                match r2 {
                    Ok(nc) => new_node_exec(vm, b, Epiq::Lpiq(l, nc)),
                    Err(e) => (b, Err(e)),
                }
            } else {
                new_node_exec(vm, a, Epiq::Lpiq(l, q))
            },
            Err(e) => (a, Err(e)),
        }
    }

    #[verifier::rlimit(40)]
    fn parse_expression(&self, vm: &mut Heliqs, pos: usize) -> (r: Step)
        requires
            old(vm).wf(),
            old(vm)@.nodes.len() >= 1,
            pos <= self.toks().len(),
        ensures
            final(vm).wf(),
        old(vm)@.closed() ==> final(vm)@.closed(),
            old(vm)@.closed() ==> final(vm)@.closed(),
            step_ok(self.toks(), old(vm)@, final(vm)@, pos as nat, r, p_expression(self.toks(), old(vm)@, pos as nat)),
        decreases rest(self.toks(), pos as nat), 4nat,
    {
        match self.token_at(pos) {
            Some(Tokn::Lbkt) => self.parse_list(vm, pos),
            Some(Tokn::Crrt) => self.parse_mpiq(vm, pos),
            _ => {
                let (a, r) = self.parse_accessing_term(vm, pos);
                match r {
                    Ok(l) => if matches!(self.token_at(a), Some(Tokn::Bang)) {
                        self.parse_apply(vm, a, l)
                    } else {
                        (a, Ok(l))
                    },
                    Err(e) => (a, Err(e)),
                }
            },
        }
    }

    fn parse_list(&self, vm: &mut Heliqs, pos: usize) -> (r: Step)
        requires
            old(vm).wf(),
            old(vm)@.nodes.len() >= 1,
            pos <= self.toks().len(),
        ensures
            final(vm).wf(),
        old(vm)@.closed() ==> final(vm)@.closed(),
            old(vm)@.closed() ==> final(vm)@.closed(),
            step_ok(self.toks(), old(vm)@, final(vm)@, pos as nat, r, p_list(self.toks(), old(vm)@, pos as nat)),
        decreases rest(self.toks(), pos as nat), 3nat,
    {
        if !matches!(self.token_at(pos), Some(Tokn::Lbkt)) {
            return (pos, Err(Error::Unexpected(pos)));
        }
        self.parse_list_internal(vm, pos + 1)
    }

    #[verifier::rlimit(40)]
    fn parse_list_internal(&self, vm: &mut Heliqs, pos: usize) -> (r: Step)
        requires
            old(vm).wf(),
            old(vm)@.nodes.len() >= 1,
            pos <= self.toks().len(),
        ensures
            final(vm).wf(),
        old(vm)@.closed() ==> final(vm)@.closed(),
            old(vm)@.closed() ==> final(vm)@.closed(),
            step_ok(self.toks(), old(vm)@, final(vm)@, pos as nat, r, p_list_internal(self.toks(), old(vm)@, pos as nat)),
        decreases rest(self.toks(), pos as nat), 6nat,
    {
        match self.token_at(pos) {
            Some(Tokn::Rbkt) => new_node_exec(vm, pos + 1, Epiq::Unit),
            None => (pos, Err(Error::Expression(pos))),
            Some(_) => {
                let (a, r1) = self.parse_aexp(vm, pos);
                let a = if a >= pos + 1 {
                    a
                } else {
                    pos + 1
                };
                match r1 {
                    Ok(p) => {
                        let (b, r2) = self.parse_list_internal(vm, a);
                        match r2 {
                            Ok(q) => new_node_exec(vm, b, Epiq::Lpiq(p, q)),
                            Err(e) => (b, Err(e)),
                        }
                    },
                    Err(e) => (a, Err(e)),
                }
            },
        }
    }

    fn parse_accessing_term(&self, vm: &mut Heliqs, pos: usize) -> (r: Step)
        requires
            old(vm).wf(),
            old(vm)@.nodes.len() >= 1,
            pos <= self.toks().len(),
        ensures
            final(vm).wf(),
        old(vm)@.closed() ==> final(vm)@.closed(),
            old(vm)@.closed() ==> final(vm)@.closed(),
            step_ok(self.toks(), old(vm)@, final(vm)@, pos as nat, r, p_accessing_term(self.toks(), old(vm)@, pos as nat)),
        decreases rest(self.toks(), pos as nat), 3nat,
    {
        let (a, r) = self.parse_term(vm, pos);
        match r {
            Ok(l) => if matches!(self.token_at(a), Some(Tokn::Stop)) {
                self.parse_accessor(vm, a, l)
            } else {
                (a, Ok(l))
            },
            Err(e) => (a, Err(e)),
        }
    }

    #[verifier::spinoff_prover]
    #[verifier::rlimit(60)]
    fn parse_accessor(&self, vm: &mut Heliqs, pos: usize, left: NodeId) -> (r: Step)
        requires
            old(vm).wf(),
            old(vm)@.nodes.len() >= 1,
            left < old(vm)@.nodes.len(),
            pos <= self.toks().len(),
        ensures
            final(vm).wf(),
        old(vm)@.closed() ==> final(vm)@.closed(),
            old(vm)@.closed() ==> final(vm)@.closed(),
            step_ok(self.toks(), old(vm)@, final(vm)@, pos as nat, r, p_accessor(self.toks(), old(vm)@, pos as nat, left)),
        decreases rest(self.toks(), pos as nat), 0nat,
    {
        if !matches!(self.token_at(pos), Some(Tokn::Stop)) {
            return (pos, Err(Error::Unexpected(pos)));
        }
        let (a, r) = self.parse_term(vm, pos + 1);
        match r {
            Ok(q) => {
                let (a2, r2) = new_node_exec(vm, a, Epiq::Accs(left, q));
                match r2 {
                    Ok(id) => if matches!(self.token_at(a), Some(Tokn::Stop)) {
                        let (a3, r3) = new_node_exec(vm, a, Epiq::Eval(UNIT_INDX, id));
                        match r3 {
                            Ok(new_left) => {
                                let (b, r4) = self.parse_accessor(vm, a, new_left);
                                match r4 {
                                    Ok(nc) => new_node_exec(vm, b, Epiq::Eval(UNIT_INDX, nc)),
                                    Err(e) => (b, Err(e)),
                                }
                            },
                            Err(e) => (a3, Err(e)),
                        }
                    } else {
                        new_node_exec(vm, a, Epiq::Eval(UNIT_INDX, id))
                    },
                    Err(e) => (a2, Err(e)),
                }
            },
            Err(e) => (a, Err(e)),
        }
    }

    fn parse_term(&self, vm: &mut Heliqs, pos: usize) -> (r: Step)
        requires
            old(vm).wf(),
            old(vm)@.nodes.len() >= 1,
            pos <= self.toks().len(),
        ensures
            final(vm).wf(),
        old(vm)@.closed() ==> final(vm)@.closed(),
            old(vm)@.closed() ==> final(vm)@.closed(),
            step_ok(self.toks(), old(vm)@, final(vm)@, pos as nat, r, p_term(self.toks(), old(vm)@, pos as nat)),
        decreases rest(self.toks(), pos as nat), 2nat,
    {
        match self.token_at(pos) {
            Some(Tokn::Atsm) => self.parse_resolve(vm, pos),
            _ => self.parse_literal(vm, pos),
        }
    }

    fn parse_apply(&self, vm: &mut Heliqs, pos: usize, left: NodeId) -> (r: Step)
        requires
            old(vm).wf(),
            old(vm)@.nodes.len() >= 1,
            left < old(vm)@.nodes.len(),
            pos <= self.toks().len(),
        ensures
            final(vm).wf(),
        old(vm)@.closed() ==> final(vm)@.closed(),
            old(vm)@.closed() ==> final(vm)@.closed(),
            step_ok(self.toks(), old(vm)@, final(vm)@, pos as nat, r, p_apply(self.toks(), old(vm)@, pos as nat, left)),
        decreases rest(self.toks(), pos as nat), 0nat,
    {
        if !matches!(self.token_at(pos), Some(Tokn::Bang)) {
            return (pos, Err(Error::Unexpected(pos)));
        }
        let (a, r) = self.parse_expression(vm, pos + 1);
        match r {
            Ok(q) => {
                let (a2, r2) = new_node_exec(vm, a, Epiq::Appl(left, q));
                match r2 {
                    Ok(id) => new_node_exec(vm, a, Epiq::Eval(UNIT_INDX, id)),
                    Err(e) => (a2, Err(e)),
                }
            },
            Err(e) => (a, Err(e)),
        }
    }

    fn parse_resolve(&self, vm: &mut Heliqs, pos: usize) -> (r: Step)
        requires
            old(vm).wf(),
            old(vm)@.nodes.len() >= 1,
            pos <= self.toks().len(),
        ensures
            final(vm).wf(),
        old(vm)@.closed() ==> final(vm)@.closed(),
            old(vm)@.closed() ==> final(vm)@.closed(),
            step_ok(self.toks(), old(vm)@, final(vm)@, pos as nat, r, p_resolve(self.toks(), old(vm)@, pos as nat)),
        decreases rest(self.toks(), pos as nat), 1nat,
    {
        if !matches!(self.token_at(pos), Some(Tokn::Atsm)) {
            return (pos, Err(Error::Unexpected(pos)));
        }
        let (a, r) = self.parse_literal(vm, pos + 1);
        match r {
            Ok(q) => {
                let (a2, r2) = new_node_exec(vm, a, Epiq::Rslv(UNIT_INDX, q));
                match r2 {
                    Ok(id) => new_node_exec(vm, a, Epiq::Eval(UNIT_INDX, id)),
                    Err(e) => (a2, Err(e)),
                }
            },
            Err(e) => (a, Err(e)),
        }
    }

    fn parse_literal(&self, vm: &mut Heliqs, pos: usize) -> (r: Step)
        requires
            old(vm).wf(),
            old(vm)@.nodes.len() >= 1,
            pos <= self.toks().len(),
        ensures
            final(vm).wf(),
        old(vm)@.closed() ==> final(vm)@.closed(),
            old(vm)@.closed() ==> final(vm)@.closed(),
            step_ok(self.toks(), old(vm)@, final(vm)@, pos as nat, r, p_literal(self.toks(), old(vm)@, pos as nat)),
        decreases rest(self.toks(), pos as nat), 1nat,
    {
        match self.token_at(pos) {
            Some(Tokn::Smcl) => {
                vm.set_entry(UNIT_INDX);
                (pos + 1, Ok(UNIT_INDX))
            },
            Some(Tokn::Dbqt) => match self.token_at(pos + 1) {
                Some(Tokn::Chvc(s)) => if matches!(self.token_at(pos + 2), Some(Tokn::Dbqt)) {
                    new_node_exec(vm, pos + 3, Epiq::Text(s.clone()))
                } else {
                    (pos + 2, Err(Error::Text(pos)))
                },
                _ => (pos + 1, Err(Error::Text(pos))),
            },
            Some(Tokn::Chvc(s)) => new_node_exec(vm, pos + 1, Epiq::Name(s.clone())),
            Some(Tokn::Nmbr(s)) => match parse_i64(s) {
                Some(n) => new_node_exec(vm, pos + 1, Epiq::Uit8(n)),
                None => (pos + 1, Err(Error::Number(pos))),
            },
            _ => (pos, Err(Error::Expression(pos))),
        }
    }
}

/// A new node holding `e`; the position stays at `pos`.
fn new_node_exec(vm: &mut Heliqs, pos: usize, e: Epiq) -> (r: Step)
    requires
        old(vm).wf(),
        e@.children_below(old(vm)@.nodes.len() as int),
    ensures
        final(vm).wf(),
        old(vm)@.closed() ==> final(vm)@.closed(),
        (final(vm)@, r.0 as nat, r.1) == new_node(old(vm)@, pos as nat, e@),
        old(vm)@.nodes.len() <= final(vm)@.nodes.len(),
        r.1 matches Ok(i) ==> i < final(vm)@.nodes.len(),
        old(vm)@.entry_ok() ==> final(vm)@.entry_ok(),
        kept(old(vm)@, final(vm)@),
{
    if vm.len() < usize::MAX {
        let id = vm.allocate(e);
        (pos, Ok(id))
    } else {
        (pos, Err(Error::Full))
    }
}

/// The piq that the tag `otag` makes of `p` and `q`.
pub fn match_otag(otag: &String, p: NodeId, q: NodeId) -> (e: Epiq)
    ensures
        e@ == otag_epiq(otag@, p, q),
{
    proof {
        reveal_strlit(">");
        reveal_strlit(":");
        reveal_strlit("!");
        reveal_strlit("@");
        reveal_strlit("?");
        reveal_strlit("%");
        reveal_strlit("#");
        reveal_strlit(".");
        reveal_strlit("\\");
        assert(">"@ =~= seq!['>']);
        assert(":"@ =~= seq![':']);
        assert("!"@ =~= seq!['!']);
        assert("@"@ =~= seq!['@']);
        assert("?"@ =~= seq!['?']);
        assert("%"@ =~= seq!['%']);
        assert("#"@ =~= seq!['#']);
        assert("."@ =~= seq!['.']);
        assert("\\"@ =~= seq!['\\']);
    }
    if text_eq(otag, ">") {
        Epiq::Eval(p, q)
    } else if text_eq(otag, ":") {
        Epiq::Lpiq(p, q)
    } else if text_eq(otag, "!") {
        Epiq::Appl(p, q)
    } else if text_eq(otag, "@") {
        Epiq::Rslv(p, q)
    } else if text_eq(otag, "?") {
        Epiq::Cond(p, q)
    } else if text_eq(otag, "%") {
        Epiq::Envn(p, q)
    } else if text_eq(otag, "#") {
        Epiq::Bind(p, q)
    } else if text_eq(otag, ".") {
        Epiq::Accs(p, q)
    } else if text_eq(otag, "\\") {
        Epiq::Lmbd(p, q)
    } else {
        Epiq::Tpiq { o: otag.clone(), p, q }
    }
}

} // verus!
