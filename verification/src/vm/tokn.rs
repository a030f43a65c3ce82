use vstd::prelude::*;
use vstd::string::StringExecFns;

verus! {

/// A token of the language.
pub enum Tokn {
    /// `|`
    Pipe,
    /// `^`
    Crrt,
    /// `'`
    Sgqt,
    /// An object tag, such as `:` or `Abc`.
    Otag(String),
    /// A run of characters: a name, or the inside of a text.
    Chvc(String),
    /// A number.
    Nmbr(String),
    /// `;`
    Smcl,
    /// `[`
    Lbkt,
    /// `]`
    Rbkt,
    /// `:` used as an infix operator.
    Coln,
    /// `!`
    Bang,
    /// `.`
    Stop,
    /// `@`
    Atsm,
    /// `"`
    Dbqt,
}

/// The abstract value of a [`Tokn`].
pub enum TokenV {
    Pipe,
    Crrt,
    Sgqt,
    Otag(Seq<char>),
    Chvc(Seq<char>),
    Nmbr(Seq<char>),
    Smcl,
    Lbkt,
    Rbkt,
    Coln,
    Bang,
    Stop,
    Atsm,
    Dbqt,
}

impl View for Tokn {
    type V = TokenV;

    open spec fn view(&self) -> TokenV {
        match self {
            Tokn::Pipe => TokenV::Pipe,
            Tokn::Crrt => TokenV::Crrt,
            Tokn::Sgqt => TokenV::Sgqt,
            Tokn::Otag(s) => TokenV::Otag(s@),
            Tokn::Chvc(s) => TokenV::Chvc(s@),
            Tokn::Nmbr(s) => TokenV::Nmbr(s@),
            Tokn::Smcl => TokenV::Smcl,
            Tokn::Lbkt => TokenV::Lbkt,
            Tokn::Rbkt => TokenV::Rbkt,
            Tokn::Coln => TokenV::Coln,
            Tokn::Bang => TokenV::Bang,
            Tokn::Stop => TokenV::Stop,
            Tokn::Atsm => TokenV::Atsm,
            Tokn::Dbqt => TokenV::Dbqt,
        }
    }
}

/// How a token is written in a token listing: its name, followed by its text
/// in angle brackets where it carries one (`Chvc<abc>`).
pub open spec fn describe_token(t: TokenV) -> Seq<char> {
    match t {
        TokenV::Pipe => seq!['P', 'i', 'p', 'e'],
        TokenV::Crrt => seq!['C', 'r', 'r', 't'],
        TokenV::Sgqt => seq!['S', 'g', 'q', 't'],
        TokenV::Otag(s) => seq!['O', 't', 'a', 'g', '<'] + s + seq!['>'],
        TokenV::Chvc(s) => seq!['C', 'h', 'v', 'c', '<'] + s + seq!['>'],
        TokenV::Nmbr(s) => seq!['N', 'm', 'b', 'r', '<'] + s + seq!['>'],
        TokenV::Smcl => seq!['S', 'm', 'c', 'l'],
        TokenV::Lbkt => seq!['L', 'b', 'k', 't'],
        TokenV::Rbkt => seq!['R', 'b', 'k', 't'],
        TokenV::Coln => seq!['C', 'o', 'l', 'n'],
        TokenV::Bang => seq!['B', 'a', 'n', 'g'],
        TokenV::Stop => seq!['S', 't', 'o', 'p'],
        TokenV::Atsm => seq!['A', 't', 's', 'm'],
        TokenV::Dbqt => seq!['D', 'b', 'q', 't'],
    }
}

impl Tokn {
    /// The token as it is written in a token listing, e.g. `Chvc<abc>`.
    pub fn describe(&self) -> (s: String)
        ensures
            s@ == describe_token(self@),
    {
        proof {
            reveal_strlit("Pipe");
            reveal_strlit("Crrt");
            reveal_strlit("Sgqt");
            reveal_strlit("Otag<");
            reveal_strlit("Chvc<");
            reveal_strlit("Nmbr<");
            reveal_strlit("Smcl");
            reveal_strlit("Lbkt");
            reveal_strlit("Rbkt");
            reveal_strlit("Coln");
            reveal_strlit("Bang");
            reveal_strlit("Stop");
            reveal_strlit("Atsm");
            reveal_strlit("Dbqt");
            reveal_strlit(">");
        }
        match self {
            Tokn::Pipe => named("Pipe"),
            Tokn::Crrt => named("Crrt"),
            Tokn::Sgqt => named("Sgqt"),
            Tokn::Otag(s) => with_text("Otag<", s),
            Tokn::Chvc(s) => with_text("Chvc<", s),
            Tokn::Nmbr(s) => with_text("Nmbr<", s),
            Tokn::Smcl => named("Smcl"),
            Tokn::Lbkt => named("Lbkt"),
            Tokn::Rbkt => named("Rbkt"),
            Tokn::Coln => named("Coln"),
            Tokn::Bang => named("Bang"),
            Tokn::Stop => named("Stop"),
            Tokn::Atsm => named("Atsm"),
            Tokn::Dbqt => named("Dbqt"),
        }
    }

    /// A copy of the token.
    pub fn copy(&self) -> (t: Tokn)
        ensures
            t == *self,
    {
        match self {
            Tokn::Pipe => Tokn::Pipe,
            Tokn::Crrt => Tokn::Crrt,
            Tokn::Sgqt => Tokn::Sgqt,
            Tokn::Otag(s) => Tokn::Otag(s.clone()),
            Tokn::Chvc(s) => Tokn::Chvc(s.clone()),
            Tokn::Nmbr(s) => Tokn::Nmbr(s.clone()),
            Tokn::Smcl => Tokn::Smcl,
            Tokn::Lbkt => Tokn::Lbkt,
            Tokn::Rbkt => Tokn::Rbkt,
            Tokn::Coln => Tokn::Coln,
            Tokn::Bang => Tokn::Bang,
            Tokn::Stop => Tokn::Stop,
            Tokn::Atsm => Tokn::Atsm,
            Tokn::Dbqt => Tokn::Dbqt,
        }
    }
}

fn named(lit: &str) -> (s: String)
    ensures
        s@ == lit@,
{
    String::from_str(lit)
}

fn with_text(prefix: &str, text: &String) -> (s: String)
    ensures
        s@ == prefix@ + text@ + ">"@,
{
    let mut s = String::from_str(prefix);
    s.append(text.as_str());
    s.append(">");
    s
}

} // verus!
