//! The printer, which writes a node back as text, and the whole pipeline:
//! a program read, parsed, walked and printed.

use vstd::prelude::*;
use vstd::string::StringExecFns;
use vstd::string::StringSliceAdditionalSpecFns;
use crate::vm::{Heliqs, HeliqsV, Epiq, EpiqV, NodeId, BindingV, nodes_closed};
use crate::text::{int_decimal, i64_to_string};
use crate::lexer::{self, Lexer, LexerV, State, FIRST_CHAR, all_scanners, spec_all_scanners, spec_tokenize_all};
use crate::parser::{self, Parser};
use crate::parser::grammar::spec_parse;
use crate::walker::{Walker, WalkError, WALK_FUEL};
use crate::walker::semantics::{walk_machine, shape, shapes_kept};

verus! {

/// The tag and the two parts of a pair-shaped piq: a piq of a tag of its own
/// or a metadata piq shows its tag, a quotation shows `|`, the others the tag
/// they are written with.
pub open spec fn pair_of(e: EpiqV) -> Option<(Seq<char>, NodeId, NodeId)> {
    match e {
        EpiqV::Tpiq { o, p, q } => Some((o, p, q)),
        EpiqV::Mpiq { o, p, q } => Some((o, p, q)),
        EpiqV::Quot(p, q) => Some((seq!['|'], p, q)),
        EpiqV::Eval(p, q) => Some((seq!['>'], p, q)),
        EpiqV::Lpiq(p, q) => Some((seq![':'], p, q)),
        EpiqV::Appl(p, q) => Some((seq!['!'], p, q)),
        EpiqV::Rslv(p, q) => Some((seq!['@'], p, q)),
        EpiqV::Cond(p, q) => Some((seq!['?'], p, q)),
        EpiqV::Envn(p, q) => Some((seq!['%'], p, q)),
        EpiqV::Bind(p, q) => Some((seq!['#'], p, q)),
        EpiqV::Accs(p, q) => Some((seq!['.'], p, q)),
        EpiqV::Lmbd(p, q) => Some((seq!['\\'], p, q)),
        _ => None,
    }
}

/// How a piq that is not pair-shaped is written.
pub open spec fn leaf_text(e: EpiqV) -> Seq<char> {
    match e {
        EpiqV::Unit => seq![';'],
        EpiqV::Tval => seq!['^', 'T'],
        EpiqV::Fval => seq!['^', 'F'],
        EpiqV::Name(n) => n,
        EpiqV::Text(s) => seq!['"'] + s + seq!['"'],
        EpiqV::Uit8(n) => int_decimal(n as int),
        EpiqV::Prim(n) => seq!['P', 'r', 'i', 'm', '('] + n + seq![')'],
        _ => Seq::<char>::empty(),
    }
}

/// How node `i` is written, its pair-shaped parts nested at most `depth`
/// deep: a pair-shaped piq as its tag followed by its two parts in
/// parentheses, separated by a space (`:(abc ;)`).  Where no depth is left,
/// or a part is not a node, a pair-shaped piq is written as nothing.
pub open spec fn printed(nodes: Seq<EpiqV>, i: nat, depth: nat) -> Seq<char>
    decreases depth,
{
    match pair_of(nodes[i as int]) {
        Some((o, p, q)) => if depth > 0 && p < nodes.len() && q < nodes.len() {
            let d = (depth - 1) as nat;
            o + seq!['('] + printed(nodes, p as nat, d) + seq![' '] + printed(nodes, q as nat, d) + seq![')']
        } else {
            Seq::<char>::empty()
        },
        None => leaf_text(nodes[i as int]),
    }
}

/// How node `i` of a machine is written.  Where the nodes form no cycle, a
/// path of parts visits each node at most once, so as many levels as there
/// are nodes write the node in full.
pub open spec fn printed_node(nodes: Seq<EpiqV>, i: nat) -> Seq<char> {
    printed(nodes, i, nodes.len())
}

/// How the machine is written: its entry point, or nothing where it has none.
pub open spec fn printed_machine(vm: HeliqsV) -> Seq<char> {
    match vm.entry {
        Some(e) => printed_node(vm.nodes, e as nat),
        None => Seq::<char>::empty(),
    }
}

/// A machine with no node, no entry point, one empty frame and no output.
pub open spec fn empty_machine() -> HeliqsV {
    HeliqsV {
        nodes: Seq::<EpiqV>::empty(),
        entry: None,
        frames: seq![Seq::<BindingV>::empty()],
        out: Seq::<char>::empty(),
    }
}

/// A lexer at the start of `input`.
pub open spec fn start_of(input: Seq<u8>) -> LexerV {
    LexerV { input, pos: 0, cur: FIRST_CHAR, state: State::Normal, token: Seq::empty() }
}

/// The machine that the program `input` is parsed into, and the node of the
/// whole program.
pub open spec fn parsed_program(input: Seq<u8>) -> (HeliqsV, Result<NodeId, parser::Error>) {
    let (toks, end) = spec_tokenize_all(spec_all_scanners(), start_of(input));
    spec_parse(toks, end, empty_machine())
}

/// The machine after the program `input` is parsed and walked, and whether
/// the walk succeeded.
pub open spec fn walked_program(input: Seq<u8>) -> (HeliqsV, Result<(), WalkError>) {
    walk_machine(parsed_program(input).0, WALK_FUEL as nat)
}

/// A node prints the same as another that reads the same.
proof fn lemma_shape_prints(e: EpiqV)
    ensures
        pair_of(shape(e)) == pair_of(e),
        pair_of(e) is None ==> shape(e) == e,
{
    assert(seq!['?'] =~= seq!['?']);
}

/// Where every node of `a` is still in `b` and reads the same, and every
/// part of a node of `a` is a node of `a`, each node of `a` prints the same in
/// `b` as in `a`, to any depth.
pub proof fn lemma_printed_kept(a: Seq<EpiqV>, b: Seq<EpiqV>, j: nat, depth: nat)
    requires
        nodes_closed(a),
        shapes_kept(a, b),
        j < a.len(),
    ensures
        printed(b, j, depth) == printed(a, j, depth),
    decreases depth,
{
    assert(shape(b[j as int]) == shape(a[j as int]));
    lemma_shape_prints(a[j as int]);
    lemma_shape_prints(b[j as int]);
    assert(a[j as int].children_below(a.len() as int));
    if let Some((o, p, q)) = pair_of(a[j as int]) {
        if depth > 0 {
            lemma_printed_kept(a, b, p as nat, (depth - 1) as nat);
            lemma_printed_kept(a, b, q as nat, (depth - 1) as nat);
        }
    }
}

/// Writes nodes of a machine as text.
pub struct Printer<'a> {
    vm: &'a Heliqs,
}

/// The tag and parts of a pair-shaped piq.
fn pair_parts(e: &Epiq) -> (r: Option<(String, NodeId, NodeId)>)
    ensures
        match r {
            Some((o, p, q)) => pair_of(e@) == Some((o@, p, q)),
            None => pair_of(e@) is None,
        },
{
    proof {
        reveal_strlit("|");
        reveal_strlit(">");
        reveal_strlit(":");
        reveal_strlit("!");
        reveal_strlit("@");
        reveal_strlit("?");
        reveal_strlit("%");
        reveal_strlit("#");
        reveal_strlit(".");
        reveal_strlit("\\");
        assert("|"@ =~= seq!['|']);
        assert(">"@ =~= seq!['>']);
        assert(":"@ =~= seq![':']);
        assert("!"@ =~= seq!['!']);
        assert("@"@ =~= seq!['@']);
        assert("?"@ =~= seq!['?']);
        assert("%"@ =~= seq!['%']);
        assert("#"@ =~= seq!['#']);
        assert("."@ =~= seq!['.']);
        assert("\\"@ =~= seq!['\\']);
    }
    match e {
        Epiq::Tpiq { o, p, q } => Some((o.clone(), *p, *q)),
        Epiq::Mpiq { o, p, q } => Some((o.clone(), *p, *q)),
        Epiq::Quot(p, q) => Some((String::from_str("|"), *p, *q)),
        Epiq::Eval(p, q) => Some((String::from_str(">"), *p, *q)),
        Epiq::Lpiq(p, q) => Some((String::from_str(":"), *p, *q)),
        Epiq::Appl(p, q) => Some((String::from_str("!"), *p, *q)),
        Epiq::Rslv(p, q) => Some((String::from_str("@"), *p, *q)),
        Epiq::Cond(p, q) => Some((String::from_str("?"), *p, *q)),
        Epiq::Envn(p, q) => Some((String::from_str("%"), *p, *q)),
        Epiq::Bind(p, q) => Some((String::from_str("#"), *p, *q)),
        Epiq::Accs(p, q) => Some((String::from_str("."), *p, *q)),
        Epiq::Lmbd(p, q) => Some((String::from_str("\\"), *p, *q)),
        _ => None,
    }
}

/// How a piq that is not pair-shaped is written.
fn leaf(e: &Epiq) -> (s: String)
    ensures
        s@ == leaf_text(e@),
{
    proof {
        reveal_strlit(";");
        reveal_strlit("^T");
        reveal_strlit("^F");
        reveal_strlit("\"");
        reveal_strlit("Prim(");
        reveal_strlit(")");
        reveal_strlit("");
        assert(";"@ =~= seq![';']);
        assert("^T"@ =~= seq!['^', 'T']);
        assert("^F"@ =~= seq!['^', 'F']);
        assert("\""@ =~= seq!['"']);
        assert("Prim("@ =~= seq!['P', 'r', 'i', 'm', '(']);
        assert(")"@ =~= seq![')']);
    }
    match e {
        Epiq::Unit => String::from_str(";"),
        Epiq::Tval => String::from_str("^T"),
        Epiq::Fval => String::from_str("^F"),
        Epiq::Name(n) => n.clone(),
        Epiq::Text(t) => {
            let mut s = String::from_str("\"");
            s.append(t.as_str());
            s.append("\"");
            s
        },
        Epiq::Uit8(n) => i64_to_string(*n),
        Epiq::Prim(n) => {
            let mut s = String::from_str("Prim(");
            s.append(n.as_str());
            s.append(")");
            s
        },
        _ => String::new(),
    }
}

impl<'a> Printer<'a> {
    /// The machine printed from.
    pub closed spec fn machine(&self) -> HeliqsV {
        self.vm@
    }

    /// The machine is well formed, and every part of every node is a node.
    pub closed spec fn wf(&self) -> bool {
        &&& self.vm.wf()
        &&& self.vm@.closed()
    }

    /// A printer of the machine `vm`.
    pub fn new(vm: &'a Heliqs) -> (p: Printer<'a>)
        ensures
            p.machine() == vm@,
            p.wf() == (vm.wf() && vm@.closed()),
    {
        Printer { vm }
    }

    /// The entry point written as text; nothing where there is no entry
    /// point.
    pub fn print(&self) -> (s: String)
        requires
            self.wf(),
            self.machine().entry_ok(),
        ensures
            s@ == printed_machine(self.machine()),
    {
        match self.vm.entry() {
            Some(e) => self.print_aexp(e, 0),
            None => String::new(),
        }
    }

    /// Node `i` written as text.  `nest_level` is how deep `i` stands in what
    /// is printed; it does not change the text.
    pub fn print_aexp(&self, i: NodeId, nest_level: u32) -> (s: String)
        requires
            self.wf(),
            i < self.machine().nodes.len(),
        ensures
            s@ == printed_node(self.machine().nodes, i as nat),
    {
        let depth = self.vm.len();
        self.print_nested(i, nest_level, depth)
    }

    /// Node `i` written as text, its pair-shaped parts nested at most `depth`
    /// deep.
    fn print_nested(&self, i: NodeId, nest_level: u32, depth: usize) -> (s: String)
        requires
            self.wf(),
            i < self.machine().nodes.len(),
        ensures
            s@ == printed(self.machine().nodes, i as nat, depth as nat),
        decreases depth,
    {
        proof {
            self.vm.lemma_view_wf();
            reveal_strlit("(");
            reveal_strlit(" ");
            reveal_strlit(")");
        }
        let e = self.vm.get_epiq(i);
        let deeper = if nest_level < u32::MAX {
            nest_level + 1
        } else {
            nest_level
        };
        match pair_parts(e) {
            Some((o, p, q)) => {
                if depth == 0 {
                    return String::new();
                }
                assert(e@.children_below(self.machine().nodes.len() as int));
                let a = self.print_nested(p, deeper, depth - 1);
                let b = self.print_nested(q, deeper, depth - 1);
                let mut s = o;
                s.append("(");
                s.append(a.as_str());
                s.append(" ");
                s.append(b.as_str());
                s.append(")");
                s
            },
            None => leaf(e),
        }
    }
}

/// Reads and parses the program `left` into a new machine.
fn parse_program(left: &str) -> (vm: Heliqs)
    ensures
        vm.wf(),
        vm@.closed(),
        vm@ == parsed_program(left.spec_bytes()).0,
        vm@.entry_ok(),
{
    let lexer = Lexer::new(left.as_bytes(), all_scanners());
    let parser = Parser::new(lexer);
    let mut vm = Heliqs::new();
    assert(vm@ == empty_machine());
    let _parsed = parser.parse(&mut vm);
    vm
}

/// Reads, parses and walks the program `s`: the machine afterwards, and
/// whether the walk succeeded.
pub fn evaluate(s: &str) -> (res: (Heliqs, Result<(), WalkError>))
    ensures
        res.0.wf(),
        res.0@.closed(),
        (res.0@, res.1) == walked_program(s.spec_bytes()),
        res.0@.entry_ok(),
{
    let vm = parse_program(s);
    let mut walker = Walker::new(vm);
    let r = walker.walk();
    (walker.into_vm(), r)
}

/// The program `left`, parsed, written as text.
pub fn printed_str(left: &str) -> (s: String)
    ensures
        s@ == printed_machine(parsed_program(left.spec_bytes()).0),
{
    let vm = parse_program(left);
    let printer = Printer::new(&vm);
    printer.print()
}

/// Checks that the program `left`, parsed, prints as `right`; a caller may
/// call it only where it does.
pub fn print_str(left: &str, right: &str)
    requires
        printed_machine(parsed_program(left.spec_bytes()).0) == right@,
{
    let printed = printed_str(left);
    assert(printed@ == right@);
}

/// The program `left`, parsed and walked, written as text; or why the walk
/// stopped.
pub fn evaled_str(left: &str) -> (r: Result<String, WalkError>)
    ensures
        match r {
            Ok(s) => walked_program(left.spec_bytes()).1 is Ok
                && s@ == printed_machine(walked_program(left.spec_bytes()).0),
            Err(e) => walked_program(left.spec_bytes()).1 == Err::<(), WalkError>(e),
        },
{
    let (vm, r) = evaluate(left);
    match r {
        Ok(()) => {
            let printer = Printer::new(&vm);
            Ok(printer.print())
        },
        Err(e) => Err(e),
    }
}

/// Checks that the program `left`, parsed and walked, prints as `right`; a
/// caller may call it only where the walk succeeds and it does.
pub fn print_evaled_str(left: &str, right: &str)
    requires
        walked_program(left.spec_bytes()).1 is Ok,
        printed_machine(walked_program(left.spec_bytes()).0) == right@,
{
    let evaled = evaled_str(left);
    assert(evaled matches Ok(s) && s@ == right@);
}

/// Parses and walks the program `s`, only for its effects: whether the walk
/// succeeded.
pub fn only_evaluate(s: &str) -> (r: Result<(), WalkError>)
    ensures
        r == walked_program(s.spec_bytes()).1,
{
    let (_vm, r) = evaluate(s);
    r
}

} // verus!
