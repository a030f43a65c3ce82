//! The primitive functions: arithmetic and comparison of numbers, texts and
//! names, printing, and joining texts.  Each takes its arguments as a list.

use vstd::prelude::*;
use vstd::string::StringExecFns;
use crate::vm::{HeliqsV, Epiq, EpiqV, NodeId};
use crate::text::{int_decimal, i64_to_string};
use crate::parser::grammar::UNIT_INDX;
use super::{Walker, WalkError};
use super::semantics::{Walked, settled, pval, qval, comparable_first};

verus! {

/// A new node holding `e`.
pub open spec fn allocated(vm: HeliqsV, e: EpiqV) -> Walked {
    if vm.nodes.len() < usize::MAX {
        (vm.with_node(e), Ok(vm.nodes.len() as NodeId))
    } else {
        (vm, Err(WalkError::Full))
    }
}

/// The first item of the list `a`.
pub open spec fn first(vm: HeliqsV, a: NodeId) -> Result<NodeId, WalkError> {
    pval(vm, a)
}

/// The second item of the list `a`.
pub open spec fn second(vm: HeliqsV, a: NodeId) -> Result<NodeId, WalkError> {
    match qval(vm, a) {
        Ok(r) => pval(vm, r),
        Err(e) => Err(e),
    }
}

/// The number that node `i` holds.
pub open spec fn number_at(vm: HeliqsV, i: NodeId) -> Result<i64, WalkError> {
    match vm.nodes[i as int] {
        EpiqV::Uit8(n) => Ok(n),
        _ => Err(WalkError::NotNumber),
    }
}

/// The text that node `i` holds.
pub open spec fn text_at(vm: HeliqsV, i: NodeId) -> Result<Seq<char>, WalkError> {
    match vm.nodes[i as int] {
        EpiqV::Text(s) => Ok(s),
        _ => Err(WalkError::NotText),
    }
}

/// The name that node `i` holds.
pub open spec fn name_at(vm: HeliqsV, i: NodeId) -> Result<Seq<char>, WalkError> {
    match vm.nodes[i as int] {
        EpiqV::Name(s) => Ok(s),
        _ => Err(WalkError::NotName),
    }
}

/// The number in the first item of `args`.
pub open spec fn first_number(vm: HeliqsV, args: NodeId) -> Result<i64, WalkError> {
    match first(vm, args) {
        Ok(a) => number_at(vm, a),
        Err(e) => Err(e),
    }
}

/// The numbers in the first two items of `args`.
pub open spec fn two_numbers(vm: HeliqsV, args: NodeId) -> Result<(i64, i64), WalkError> {
    match first_number(vm, args) {
        Err(e) => Err(e),
        Ok(n1) => match second(vm, args) {
            Err(e) => Err(e),
            Ok(b) => match number_at(vm, b) {
                Err(e) => Err(e),
                Ok(n2) => Ok((n1, n2)),
            },
        },
    }
}

/// The texts in the first two items of `args`.
pub open spec fn two_texts(vm: HeliqsV, args: NodeId) -> Result<(Seq<char>, Seq<char>), WalkError> {
    match first(vm, args) {
        Err(e) => Err(e),
        Ok(a) => match text_at(vm, a) {
            Err(e) => Err(e),
            Ok(t1) => match second(vm, args) {
                Err(e) => Err(e),
                Ok(b) => match text_at(vm, b) {
                    Err(e) => Err(e),
                    Ok(t2) => Ok((t1, t2)),
                },
            },
        },
    }
}

/// The names in the first two items of `args`.
pub open spec fn two_names(vm: HeliqsV, args: NodeId) -> Result<(Seq<char>, Seq<char>), WalkError> {
    match first(vm, args) {
        Err(e) => Err(e),
        Ok(a) => match name_at(vm, a) {
            Err(e) => Err(e),
            Ok(t1) => match second(vm, args) {
                Err(e) => Err(e),
                Ok(b) => match name_at(vm, b) {
                    Err(e) => Err(e),
                    Ok(t2) => Ok((t1, t2)),
                },
            },
        },
    }
}

/// The characters of a string, or the error.
pub open spec fn string_view(r: Result<String, WalkError>) -> Result<Seq<char>, WalkError> {
    match r {
        Ok(s) => Ok(s@),
        Err(e) => Err(e),
    }
}

/// The characters of two strings, or the error.
pub open spec fn strings_view(r: Result<(String, String), WalkError>) -> Result<(Seq<char>, Seq<char>), WalkError> {
    match r {
        Ok((s, t)) => Ok((s@, t@)),
        Err(e) => Err(e),
    }
}

/// `^T` or `^F`.
pub open spec fn truth(b: bool) -> EpiqV {
    if b {
        EpiqV::Tval
    } else {
        EpiqV::Fval
    }
}

/// `eq` on two numbers: a new truth value.
pub open spec fn prim_eq_nmbr(vm: HeliqsV, args: NodeId) -> Walked {
    match two_numbers(vm, args) {
        Ok((n1, n2)) => allocated(vm, truth(n1 == n2)),
        Err(e) => (vm, Err(e)),
    }
}

/// `eq` on two texts: a new truth value.
pub open spec fn prim_eq_text(vm: HeliqsV, args: NodeId) -> Walked {
    match two_texts(vm, args) {
        Ok((t1, t2)) => allocated(vm, truth(t1 == t2)),
        Err(e) => (vm, Err(e)),
    }
}

/// Equality of two names: a new truth value.
pub open spec fn prim_eq_name(vm: HeliqsV, args: NodeId) -> Walked {
    match two_names(vm, args) {
        Ok((t1, t2)) => allocated(vm, truth(t1 == t2)),
        Err(e) => (vm, Err(e)),
    }
}

/// `eq`: by the kind of the first item, numbers or texts are compared; a
/// unit first item is equal to a unit second item only.
pub open spec fn prim_eq(vm: HeliqsV, args: NodeId) -> Walked {
    match first(vm, args) {
        Err(e) => (vm, Err(e)),
        Ok(a) => match vm.nodes[a as int] {
            EpiqV::Uit8(_) => prim_eq_nmbr(vm, args),
            EpiqV::Text(_) => prim_eq_text(vm, args),
            EpiqV::Unit => match second(vm, args) {
                Ok(b) => allocated(vm, truth(vm.nodes[b as int] is Unit)),
                Err(e) => (vm, Err(e)),
            },
            _ => (vm, Err(WalkError::NotComparable)),
        },
    }
}

/// `print`: the text of the first item is added to the output; the result is
/// the unit node.
pub open spec fn prim_print(vm: HeliqsV, args: NodeId) -> Walked {
    match first(vm, args) {
        Err(e) => (vm, Err(e)),
        Ok(a) => match text_at(vm, a) {
            Err(e) => (vm, Err(e)),
            Ok(t) => (HeliqsV { out: vm.out + t, ..vm }, Ok(UNIT_INDX)),
        },
    }
}

/// `decr`: a new number, one less than the first item.
pub open spec fn prim_decrement(vm: HeliqsV, args: NodeId) -> Walked {
    match first_number(vm, args) {
        Err(e) => (vm, Err(e)),
        Ok(n) => if n - 1 < i64::MIN {
            (vm, Err(WalkError::Overflow))
        } else {
            allocated(vm, EpiqV::Uit8((n - 1) as i64))
        },
    }
}

/// `plus`: a new number, the sum of the first two items.
pub open spec fn prim_plus(vm: HeliqsV, args: NodeId) -> Walked {
    match two_numbers(vm, args) {
        Err(e) => (vm, Err(e)),
        Ok((n1, n2)) => if n1 + n2 < i64::MIN || n1 + n2 > i64::MAX {
            (vm, Err(WalkError::Overflow))
        } else {
            allocated(vm, EpiqV::Uit8((n1 + n2) as i64))
        },
    }
}

/// `minus`: a new number, the first item less the second.
pub open spec fn prim_minus(vm: HeliqsV, args: NodeId) -> Walked {
    match two_numbers(vm, args) {
        Err(e) => (vm, Err(e)),
        Ok((n1, n2)) => if n1 - n2 < i64::MIN || n1 - n2 > i64::MAX {
            (vm, Err(WalkError::Overflow))
        } else {
            allocated(vm, EpiqV::Uit8((n1 - n2) as i64))
        },
    }
}

/// `ltoreq`: a new truth value, whether the first item is at most the second.
pub open spec fn prim_le_or_eq(vm: HeliqsV, args: NodeId) -> Walked {
    match two_numbers(vm, args) {
        Ok((n1, n2)) => allocated(vm, truth(n1 <= n2)),
        Err(e) => (vm, Err(e)),
    }
}

/// The text that `concat` takes of a node: a text, a name, or a number in
/// decimal.
pub open spec fn piece(e: EpiqV) -> Option<Seq<char>> {
    match e {
        EpiqV::Text(s) => Some(s),
        EpiqV::Name(s) => Some(s),
        EpiqV::Uit8(n) => Some(int_decimal(n as int)),
        _ => None,
    }
}

/// `concat`: a new text, `acc` followed by the pieces of the items of `args`
/// in order.  At most `budget` more cells are followed, as in `assign_at`.
pub open spec fn prim_concat(vm: HeliqsV, args: NodeId, acc: Seq<char>, budget: nat) -> Walked
    decreases budget,
{
    match first(vm, args) {
        Err(e) => (vm, Err(e)),
        Ok(a) => match piece(vm.nodes[a as int]) {
            None => (vm, Err(WalkError::NotText)),
            Some(t) => match qval(vm, args) {
                Err(e) => (vm, Err(e)),
                Ok(next) => if vm.nodes[next as int] is Unit {
                    allocated(vm, EpiqV::Text(acc + t))
                } else if budget > 0 {
                    prim_concat(vm, next, acc + t, (budget - 1) as nat)
                } else {
                    (vm, Err(WalkError::Exhausted))
                },
            },
        },
    }
}

/// `dbqt`: a new text holding a double quote.
pub open spec fn prim_dbqt(vm: HeliqsV) -> Walked {
    allocated(vm, EpiqV::Text(seq!['"']))
}

impl Walker {
    /// The first item of the list `a`.
    fn first(&self, a: NodeId) -> (r: Result<NodeId, WalkError>)
        requires
            self.wf(),
            a < self@.nodes.len(),
        ensures
            r == first(self@, a),
            r matches Ok(k) ==> k < self@.nodes.len(),
    {
        self.pval(a)
    }

    /// The second item of the list `a`.
    fn second(&self, a: NodeId) -> (r: Result<NodeId, WalkError>)
        requires
            self.wf(),
            a < self@.nodes.len(),
        ensures
            r == second(self@, a),
            r matches Ok(k) ==> k < self@.nodes.len(),
    {
        match self.qval(a) {
            Ok(r) => self.pval(r),
            Err(e) => Err(e),
        }
    }

    fn number_at(&self, i: NodeId) -> (r: Result<i64, WalkError>)
        requires
            self.wf(),
            i < self@.nodes.len(),
        ensures
            r == number_at(self@, i),
    {
        match self.node(i) {
            Epiq::Uit8(n) => Ok(*n),
            _ => Err(WalkError::NotNumber),
        }
    }

    fn first_number(&self, args: NodeId) -> (r: Result<i64, WalkError>)
        requires
            self.wf(),
            args < self@.nodes.len(),
        ensures
            r == first_number(self@, args),
    {
        match self.first(args) {
            Ok(a) => self.number_at(a),
            Err(e) => Err(e),
        }
    }

    fn two_numbers(&self, args: NodeId) -> (r: Result<(i64, i64), WalkError>)
        requires
            self.wf(),
            args < self@.nodes.len(),
        ensures
            r == two_numbers(self@, args),
    {
        let n1 = match self.first_number(args) {
            Ok(n) => n,
            Err(e) => return Err(e),
        };
        let b = match self.second(args) {
            Ok(b) => b,
            Err(e) => return Err(e),
        };
        match self.number_at(b) {
            Ok(n2) => Ok((n1, n2)),
            Err(e) => Err(e),
        }
    }

    /// The text or name in node `i`, by its kind.
    fn string_at(&self, i: NodeId, names: bool) -> (r: Result<String, WalkError>)
        requires
            self.wf(),
            i < self@.nodes.len(),
        ensures
            names ==> string_view(r) == name_at(self@, i),
            !names ==> string_view(r) == text_at(self@, i),
    {
        match self.node(i) {
            Epiq::Text(s) => if names {
                Err(WalkError::NotName)
            } else {
                Ok(s.clone())
            },
            Epiq::Name(s) => if names {
                Ok(s.clone())
            } else {
                Err(WalkError::NotText)
            },
            _ => if names {
                Err(WalkError::NotName)
            } else {
                Err(WalkError::NotText)
            },
        }
    }

    /// The texts (or names) in the first two items of `args`.
    fn two_strings(&self, args: NodeId, names: bool) -> (r: Result<(String, String), WalkError>)
        requires
            self.wf(),
            args < self@.nodes.len(),
        ensures
            names ==> strings_view(r) == two_names(self@, args),
            !names ==> strings_view(r) == two_texts(self@, args),
    {
        let a = match self.first(args) {
            Ok(a) => a,
            Err(e) => return Err(e),
        };
        let t1 = match self.string_at(a, names) {
            Ok(t) => t,
            Err(e) => return Err(e),
        };
        let b = match self.second(args) {
            Ok(b) => b,
            Err(e) => return Err(e),
        };
        match self.string_at(b, names) {
            Ok(t2) => Ok((t1, t2)),
            Err(e) => Err(e),
        }
    }

    /// A new truth value.
    fn alloc_truth(&mut self, b: bool) -> (r: Result<NodeId, WalkError>)
        requires
            old(self).wf(),
        ensures
            final(self).wf(),
            (final(self)@, r) == allocated(old(self)@, truth(b)),
    {
        if b {
            self.new_node(Epiq::Tval)
        } else {
            self.new_node(Epiq::Fval)
        }
    }

    /// Compares the numbers in the first two items of `args`: a new `^T` or
    /// `^F`.
    pub fn eq_nmbr(&mut self, args: NodeId) -> (r: Result<NodeId, WalkError>)
        requires
            old(self).wf(),
            args < old(self)@.nodes.len(),
        ensures
            final(self).wf(),
            (final(self)@, r) == prim_eq_nmbr(old(self)@, args),
            settled(old(self)@, final(self)@, r),
    {
        match self.two_numbers(args) {
            Ok((n1, n2)) => self.alloc_truth(n1 == n2),
            Err(e) => Err(e),
        }
    }

    /// Compares the texts in the first two items of `args`: a new `^T` or
    /// `^F`.
    pub fn eq_text(&mut self, args: NodeId) -> (r: Result<NodeId, WalkError>)
        requires
            old(self).wf(),
            args < old(self)@.nodes.len(),
        ensures
            final(self).wf(),
            (final(self)@, r) == prim_eq_text(old(self)@, args),
            settled(old(self)@, final(self)@, r),
    {
        match self.two_strings(args, false) {
            Ok((t1, t2)) => self.alloc_truth(t1 == t2),
            Err(e) => Err(e),
        }
    }

    /// Compares the names in the first two items of `args`: a new `^T` or
    /// `^F`.
    pub fn eq_name(&mut self, args: NodeId) -> (r: Result<NodeId, WalkError>)
        requires
            old(self).wf(),
            args < old(self)@.nodes.len(),
        ensures
            final(self).wf(),
            (final(self)@, r) == prim_eq_name(old(self)@, args),
            settled(old(self)@, final(self)@, r),
    {
        match self.two_strings(args, true) {
            Ok((t1, t2)) => self.alloc_truth(t1 == t2),
            Err(e) => Err(e),
        }
    }

    /// `eq`: compares numbers or texts by the kind of the first item; a unit
    /// first item equals a unit second item only.
    pub(crate) fn eq_values(&mut self, args: NodeId) -> (r: Result<NodeId, WalkError>)
        requires
            old(self).wf(),
            args < old(self)@.nodes.len(),
            comparable_first(old(self)@, args),
        ensures
            final(self).wf(),
            (final(self)@, r) == prim_eq(old(self)@, args),
            settled(old(self)@, final(self)@, r),
    {
        let a = match self.first(args) {
            Ok(a) => a,
            Err(e) => return Err(e),
        };
        match self.node(a) {
            Epiq::Uit8(_) => self.eq_nmbr(args),
            Epiq::Text(_) => self.eq_text(args),
            Epiq::Unit => match self.second(args) {
                Ok(b) => {
                    let unit = matches!(self.node(b), Epiq::Unit);
                    self.alloc_truth(unit)
                },
                Err(e) => Err(e),
            },
            _ => Err(WalkError::NotComparable),
        }
    }

    /// Adds the text in the first item of `args` to the output; gives the
    /// unit node.
    pub fn print(&mut self, args: NodeId) -> (r: Result<NodeId, WalkError>)
        requires
            old(self).wf(),
            args < old(self)@.nodes.len(),
        ensures
            final(self).wf(),
            (final(self)@, r) == prim_print(old(self)@, args),
            settled(old(self)@, final(self)@, r),
    {
        let a = match self.first(args) {
            Ok(a) => a,
            Err(e) => return Err(e),
        };
        match self.string_at(a, false) {
            Ok(t) => {
                self.vm.write_out(t.as_str());
                Ok(UNIT_INDX)
            },
            Err(e) => Err(e),
        }
    }

    /// A new number, one less than the first item of `args`.
    pub fn decrement(&mut self, args: NodeId) -> (r: Result<NodeId, WalkError>)
        requires
            old(self).wf(),
            args < old(self)@.nodes.len(),
        ensures
            final(self).wf(),
            (final(self)@, r) == prim_decrement(old(self)@, args),
            settled(old(self)@, final(self)@, r),
    {
        match self.first_number(args) {
            Ok(n) => match n.checked_sub(1) {
                Some(m) => self.new_node(Epiq::Uit8(m)),
                None => Err(WalkError::Overflow),
            },
            Err(e) => Err(e),
        }
    }

    /// A new number, the sum of the first two items of `args`.
    pub fn plus(&mut self, args: NodeId) -> (r: Result<NodeId, WalkError>)
        requires
            old(self).wf(),
            args < old(self)@.nodes.len(),
        ensures
            final(self).wf(),
            (final(self)@, r) == prim_plus(old(self)@, args),
            settled(old(self)@, final(self)@, r),
    {
        match self.two_numbers(args) {
            Ok((n1, n2)) => match n1.checked_add(n2) {
                Some(m) => self.new_node(Epiq::Uit8(m)),
                None => Err(WalkError::Overflow),
            },
            Err(e) => Err(e),
        }
    }

    /// A new number, the first item of `args` less the second.
    pub fn minus(&mut self, args: NodeId) -> (r: Result<NodeId, WalkError>)
        requires
            old(self).wf(),
            args < old(self)@.nodes.len(),
        ensures
            final(self).wf(),
            (final(self)@, r) == prim_minus(old(self)@, args),
            settled(old(self)@, final(self)@, r),
    {
        match self.two_numbers(args) {
            Ok((n1, n2)) => match n1.checked_sub(n2) {
                Some(m) => self.new_node(Epiq::Uit8(m)),
                None => Err(WalkError::Overflow),
            },
            Err(e) => Err(e),
        }
    }

    /// A new `^T` where the first item of `args` is at most the second, else
    /// `^F`.
    pub fn le_or_eq_nmbr(&mut self, args: NodeId) -> (r: Result<NodeId, WalkError>)
        requires
            old(self).wf(),
            args < old(self)@.nodes.len(),
        ensures
            final(self).wf(),
            (final(self)@, r) == prim_le_or_eq(old(self)@, args),
            settled(old(self)@, final(self)@, r),
    {
        match self.two_numbers(args) {
            Ok((n1, n2)) => self.alloc_truth(n1 <= n2),
            Err(e) => Err(e),
        }
    }

    /// A new text: the texts, names and numbers (in decimal) of the items of
    /// `args`, joined in order.
    pub fn concat(&mut self, args: NodeId) -> (r: Result<NodeId, WalkError>)
        requires
            old(self).wf(),
            args < old(self)@.nodes.len(),
        ensures
            final(self).wf(),
            (final(self)@, r) == prim_concat(old(self)@, args, Seq::<char>::empty(), old(self)@.nodes.len()),
            settled(old(self)@, final(self)@, r),
    {
        let mut acc = String::new();
        let budget = self.vm.len();
        self.concat_internal(args, &mut acc, budget)
    }

    fn concat_internal(&mut self, args: NodeId, acc: &mut String, budget: usize) -> (r: Result<NodeId, WalkError>)
        requires
            old(self).wf(),
            args < old(self)@.nodes.len(),
        ensures
            final(self).wf(),
            (final(self)@, r) == prim_concat(old(self)@, args, old(acc)@, budget as nat),
            settled(old(self)@, final(self)@, r),
        decreases budget,
    {
        let a = match self.first(args) {
            Ok(a) => a,
            Err(e) => return Err(e),
        };
        match self.node(a) {
            Epiq::Text(s) => acc.append(s.as_str()),
            Epiq::Name(s) => acc.append(s.as_str()),
            Epiq::Uit8(n) => {
                let t = i64_to_string(*n);
                acc.append(t.as_str());
            },
            _ => return Err(WalkError::NotText),
        }
        let next = match self.qval(args) {
            Ok(n) => n,
            Err(e) => return Err(e),
        };
        if matches!(self.node(next), Epiq::Unit) {
            let text = acc.clone();
            self.new_node(Epiq::Text(text))
        } else if budget > 0 {
            self.concat_internal(next, acc, budget - 1)
        } else {
            Err(WalkError::Exhausted)
        }
    }

    /// A new text holding a double quote.
    pub fn dbqt(&mut self, _args: NodeId) -> (r: Result<NodeId, WalkError>)
        requires
            old(self).wf(),
        ensures
            final(self).wf(),
            (final(self)@, r) == prim_dbqt(old(self)@),
            settled(old(self)@, final(self)@, r),
    {
        proof {
            reveal_strlit("\"");
            assert("\""@ =~= seq!['"']);
        }
        self.new_node(Epiq::Text(String::from_str("\"")))
    }
}

} // verus!
