//! The operators of the TypeScript family: a flat n-ary language whose
//! binders (`lam{n}`) and applications (`app`) are real nodes.
use vstd::prelude::*;

use super::Weights;
use crate::decimal::{
    all_digits, decimal, digits_value, is_digit, lemma_parse_i32_of_digits, lemma_parse_u32_of_digits, lemma_parse_i32_of_signed_decimal, lemma_parse_u32_of_decimal, parse_i32_at, parse_u32_at, push_i32, push_u32, signed_decimal, spec_parse_i32,
    spec_parse_u32,
};
use crate::text::{chars_of, matches_at};

verus! {

/// `egg`'s pattern variable, which this family never uses as an operator.
#[verifier::external_type_specification]
#[verifier::external_body]
pub struct ExPatternVar(egg::Var);

/// An operator of the TypeScript family.
#[derive(Debug, Hash, PartialEq, Eq, Clone, PartialOrd, Ord)]
pub enum TsOp {
    Define,
    Done,
    App,
    /// A binder of several variables at once.
    Lam(u32),
    /// A de Bruijn variable.
    Var(i32),
    /// Any other operator, by its name as `egg`'s symbol table holds it.
    Sym(&'static str),
}

/// What an operator is: `TsOp` with the symbol's name as a sequence.
pub enum TsOpModel {
    Define,
    Done,
    App,
    Lam(u32),
    Var(i32),
    Sym(Seq<char>),
}

impl View for TsOp {
    type V = TsOpModel;

    open spec fn view(&self) -> TsOpModel {
        match *self {
            TsOp::Define => TsOpModel::Define,
            TsOp::Done => TsOpModel::Done,
            TsOp::App => TsOpModel::App,
            TsOp::Lam(n) => TsOpModel::Lam(n),
            TsOp::Var(n) => TsOpModel::Var(n),
            TsOp::Sym(s) => TsOpModel::Sym(s@),
        }
    }
}

pub open spec fn word_define() -> Seq<char> {
    seq!['d', 'e', 'f', 'i', 'n', 'e']
}

pub open spec fn word_done() -> Seq<char> {
    seq!['d', 'o', 'n', 'e']
}

pub open spec fn word_app() -> Seq<char> {
    seq!['a', 'p', 'p']
}

pub open spec fn word_lam() -> Seq<char> {
    seq!['l', 'a', 'm']
}

/// The name under which an operator is written: `define`, `done`, `app`,
/// `lam` and the number of variables it binds, `$` and the de Bruijn index,
/// or the symbol itself.
pub open spec fn op_name(op: TsOpModel) -> Seq<char> {
    match op {
        TsOpModel::Define => word_define(),
        TsOpModel::Done => word_done(),
        TsOpModel::App => word_app(),
        TsOpModel::Lam(n) => word_lam() + decimal(n as nat),
        TsOpModel::Var(n) => seq!['$'] + signed_decimal(n as int),
        TsOpModel::Sym(s) => s,
    }
}

/// `s` starts with `$` and the rest reads as an `i32`.
pub open spec fn names_var(s: Seq<char>) -> bool {
    s.len() > 0 && s[0] == '$' && spec_parse_i32(s.drop_first()) is Some
}

/// `s` starts with `lam` and the rest reads as a `u32`.
pub open spec fn names_lam(s: Seq<char>) -> bool {
    s.len() >= 3 && s.take(3) == word_lam() && spec_parse_u32(s.skip(3)) is Some
}

/// The operator that the name `s` stands for; a name that is none of the
/// built-in forms is a symbol.
pub open spec fn op_from_name(s: Seq<char>) -> TsOpModel {
    if names_var(s) {
        TsOpModel::Var(spec_parse_i32(s.drop_first())->0)
    } else if names_lam(s) {
        TsOpModel::Lam(spec_parse_u32(s.skip(3))->0)
    } else if s == word_define() {
        TsOpModel::Define
    } else if s == word_done() {
        TsOpModel::Done
    } else if s == word_app() {
        TsOpModel::App
    } else {
        TsOpModel::Sym(s)
    }
}

/// `s` is taken by one of the built-in forms, so no symbol can be named so.
pub open spec fn is_reserved_name(s: Seq<char>) -> bool {
    ||| names_var(s)
    ||| names_lam(s)
    ||| s == word_define()
    ||| s == word_done()
    ||| s == word_app()
}

/// The index of a de Bruijn variable.
pub open spec fn op_de_bruijn_index(op: TsOpModel) -> Option<i32> {
    match op {
        TsOpModel::Var(n) => Some(n),
        _ => None,
    }
}

/// How many variables an operator binds in its child number `j`: a
/// definition binds one in its body (child 1), `lam{n}` binds `n` in its
/// only child.
pub open spec fn op_binds_child(op: TsOpModel, j: int) -> u32 {
    match op {
        TsOpModel::Define => if j == 1 {
            1
        } else {
            0
        },
        TsOpModel::Lam(n) => if j == 0 {
            n
        } else {
            0
        },
        _ => 0,
    }
}

/// Interns `name` in `egg`'s global symbol table (`egg::Symbol::from`) and
/// gives back the table's copy of the text (`GlobalSymbol::as_str`), which
/// lives as long as the program. Claimed: that copy holds the same
/// characters as `name`.
#[verifier::external_body]
fn intern(name: &str) -> (r: &'static str)
    ensures
        r@ == name@,
{
    egg::Symbol::from(name).as_str()
}

impl TsOp {
    /// The operator's name, as `Display` writes it.
    pub fn to_string(&self) -> (r: String)
        ensures
            r@ == op_name(self@),
    {
        match self {
            TsOp::Define => {
                proof {
                    reveal_strlit("define");
                }
                String::from_str("define")
            },
            TsOp::Done => {
                proof {
                    reveal_strlit("done");
                }
                String::from_str("done")
            },
            TsOp::App => {
                proof {
                    reveal_strlit("app");
                }
                String::from_str("app")
            },
            TsOp::Lam(n) => {
                proof {
                    reveal_strlit("lam");
                }
                let mut out = String::from_str("lam");
                push_u32(&mut out, *n);
                out
            },
            TsOp::Var(n) => {
                proof {
                    reveal_strlit("$");
                }
                let mut out = String::from_str("$");
                push_i32(&mut out, *n);
                out
            },
            TsOp::Sym(s) => String::from_str(s),
        }
    }

    /// The cost of the node itself: an application costs `app_cost`, a
    /// binder `lam_cost` however many variables it binds, and every other
    /// operator `sym_var_cost`.
    pub fn intrinsic_size(&self, weights: &Weights) -> (r: u32)
        ensures
            r == (if self@ is App {
                weights.app_cost
            } else if self@ is Lam {
                weights.lam_cost
            } else {
                weights.sym_var_cost
            }),
    {
        match self {
            TsOp::App => weights.app_cost,
            TsOp::Lam(_) => weights.lam_cost,
            _ => weights.sym_var_cost,
        }
    }

    /// No operator of this family is a pattern variable.
    pub fn as_var(&self) -> (r: Option<egg::Var>)
        ensures
            r is None,
    {
        None
    }

    /// The de Bruijn index of a variable; `None` for every other operator.
    pub fn de_bruijn_index(&self) -> (r: Option<i32>)
        ensures
            r == op_de_bruijn_index(self@),
    {
        match self {
            TsOp::Var(n) => Some(*n),
            _ => None,
        }
    }

    /// How many variables the operator binds in its child number `j`.
    pub fn binds_child(&self, j: usize) -> (r: u32)
        ensures
            r == op_binds_child(self@, j as int),
    {
        match self {
            TsOp::Define => if j == 1 {
                1
            } else {
                0
            },
            TsOp::Lam(n) => if j == 0 {
                *n
            } else {
                0
            },
            _ => 0,
        }
    }

    /// The operator that `s` names: `$` and an `i32` is a variable, `lam`
    /// and a `u32` a binder, `define`, `done` and `app` the built-in nodes,
    /// and any other name a symbol.
    pub fn from_name(s: &str) -> (r: TsOp)
        ensures
            r@ == op_from_name(s@),
    {
        let cs = chars_of(s);
        proof {
            reveal_strlit("$");
            reveal_strlit("lam");
            reveal_strlit("define");
            reveal_strlit("done");
            reveal_strlit("app");
            assert(s@.len() > 0 ==> cs@.skip(1) =~= s@.drop_first());
            assert(s@.len() >= 3 ==> cs@.skip(3) =~= s@.skip(3));
            assert("lam"@ =~= word_lam());
            assert("define"@ =~= word_define());
            assert("done"@ =~= word_done());
            assert("app"@ =~= word_app());
        }
        let dollar = matches_at(&cs, 0, "$");
        assert(dollar == (s@.len() > 0 && s@[0] == '$')) by {
            if s@.len() > 0 && s@[0] == '$' {
                assert(cs@.subrange(0, 1) =~= "$"@);
            }
            if dollar {
                assert(cs@.subrange(0, 1)[0] == "$"@[0]);
            }
        }
        if dollar {
            if let Some(n) = parse_i32_at(&cs, 1) {
                return TsOp::Var(n);
            }
        }
        let lam = matches_at(&cs, 0, "lam");
        assert(lam == (s@.len() >= 3 && s@.take(3) == word_lam())) by {
            if s@.len() >= 3 {
                assert(s@.take(3) =~= cs@.subrange(0, 3));
            }
        }
        if lam {
            if let Some(n) = parse_u32_at(&cs, 3) {
                return TsOp::Lam(n);
            }
        }
        let define = cs.len() == 6 && matches_at(&cs, 0, "define");
        assert(define == (s@ == word_define())) by {
            if cs.len() == 6 {
                assert(cs@.subrange(0, 6) =~= s@);
            }
        }
        let done = cs.len() == 4 && matches_at(&cs, 0, "done");
        assert(done == (s@ == word_done())) by {
            if cs.len() == 4 {
                assert(cs@.subrange(0, 4) =~= s@);
            }
        }
        let app = cs.len() == 3 && matches_at(&cs, 0, "app");
        assert(app == (s@ == word_app())) by {
            if cs.len() == 3 {
                assert(cs@.subrange(0, 3) =~= s@);
            }
        }
        if define {
            TsOp::Define
        } else if done {
            TsOp::Done
        } else if app {
            TsOp::App
        } else {
            TsOp::Sym(intern(s))
        }
    }

    /// A de Bruijn variable with index `n`; every index has one.
    pub fn make_db_var(n: i32) -> (r: Option<TsOp>)
        ensures
            r matches Some(op) && op@ == TsOpModel::Var(n),
    {
        Some(TsOp::Var(n))
    }
}

/// Reading an operator's name gives the operator back: every operator but a
/// symbol whose name one of the built-in forms has taken survives being
/// written out and read in again.
pub proof fn lemma_name_round_trip(op: TsOpModel)
    requires
        op matches TsOpModel::Sym(s) ==> !is_reserved_name(s),
    ensures
        op_from_name(op_name(op)) == op,
{
    let name = op_name(op);
    match op {
        TsOpModel::Define => {
            assert(name[0] == 'd');
            assert(name.take(3)[0] == 'd');
        },
        TsOpModel::Done => {
            assert(name[0] == 'd');
            assert(name.take(3)[0] == 'd');
            assert(name != word_define());
        },
        TsOpModel::App => {
            assert(name[0] == 'a');
            assert(name.take(3)[0] == 'a');
            assert(name != word_define());
            assert(name != word_done());
        },
        TsOpModel::Lam(n) => {
            assert(name[0] == 'l');
            assert(name.take(3) =~= word_lam());
            assert(name.skip(3) =~= decimal(n as nat));
            lemma_parse_u32_of_decimal(n);
        },
        TsOpModel::Var(n) => {
            assert(name[0] == '$');
            assert(name.drop_first() =~= signed_decimal(n as int));
            lemma_parse_i32_of_signed_decimal(n);
        },
        TsOpModel::Sym(s) => {},
    }
}

/// A name that none of the built-in forms takes, and only such a name,
/// reads as a symbol, and that symbol is written back as the same name.
pub proof fn lemma_symbol_name_kept(s: Seq<char>)
    ensures
        (op_from_name(s) is Sym) <==> !is_reserved_name(s),
        !is_reserved_name(s) ==> op_name(op_from_name(s)) == s,
{
}

/// The variable that `make_db_var(n)` builds has de Bruijn index `n`, and
/// binds nothing.
pub proof fn lemma_db_var_index(n: i32, j: int)
    ensures
        op_de_bruijn_index(TsOpModel::Var(n)) == Some(n),
        op_binds_child(TsOpModel::Var(n), j) == 0,
{
}

/// How each operator is written: the four letters and words of the
/// built-in nodes, `lam` followed by the shortest decimal notation of the
/// number bound (no sign, no leading zero), `$` followed by that of the
/// index (with `-` before it when negative), and a symbol as its own text.
pub proof fn lemma_names_written(n: u32, i: i32, t: Seq<char>)
    ensures
        op_name(TsOpModel::Define) == seq!['d', 'e', 'f', 'i', 'n', 'e'],
        op_name(TsOpModel::Done) == seq!['d', 'o', 'n', 'e'],
        op_name(TsOpModel::App) == seq!['a', 'p', 'p'],
        op_name(TsOpModel::Lam(n)) == seq!['l', 'a', 'm'] + decimal(n as nat),
        i >= 0 ==> op_name(TsOpModel::Var(i)) == seq!['$'] + decimal(i as nat),
        i < 0 ==> op_name(TsOpModel::Var(i)) == seq!['$', '-'] + decimal((-i) as nat),
        op_name(TsOpModel::Sym(t)) == t,
{
    if i < 0 {
        assert(seq!['$'] + (seq!['-'] + decimal((-i) as nat)) =~= seq!['$', '-'] + decimal(
            (-i) as nat,
        ));
    }
}

/// How names are read: `lam` followed by any run of digits is the binder
/// of that many variables (a `+` may stand before the digits), `$`
/// followed by a run of digits, with or without a sign, is the variable of
/// that index, the built-in words are the built-in nodes; a number too big
/// for its type leaves the name a symbol.
pub proof fn lemma_names_read(digits: Seq<char>)
    requires
        digits.len() > 0,
        all_digits(digits),
    ensures
        op_from_name(seq!['d', 'e', 'f', 'i', 'n', 'e']) == TsOpModel::Define,
        op_from_name(seq!['d', 'o', 'n', 'e']) == TsOpModel::Done,
        op_from_name(seq!['a', 'p', 'p']) == TsOpModel::App,
        digits_value(digits) <= u32::MAX ==> op_from_name(seq!['l', 'a', 'm'] + digits)
            == TsOpModel::Lam(digits_value(digits) as u32) && op_from_name(
            seq!['l', 'a', 'm', '+'] + digits,
        ) == TsOpModel::Lam(digits_value(digits) as u32),
        digits_value(digits) > u32::MAX ==> op_from_name(seq!['l', 'a', 'm'] + digits)
            == TsOpModel::Sym(seq!['l', 'a', 'm'] + digits),
        digits_value(digits) <= i32::MAX ==> op_from_name(seq!['$'] + digits) == TsOpModel::Var(
            digits_value(digits) as i32,
        ) && op_from_name(seq!['$', '+'] + digits) == TsOpModel::Var(
            digits_value(digits) as i32,
        ),
        digits_value(digits) <= 0x8000_0000 ==> op_from_name(seq!['$', '-'] + digits)
            == TsOpModel::Var((-digits_value(digits)) as i32),
        digits_value(digits) > i32::MAX ==> op_from_name(seq!['$'] + digits) == TsOpModel::Sym(
            seq!['$'] + digits,
        ),
{
    lemma_parse_u32_of_digits(digits);
    lemma_parse_i32_of_digits(digits);
    assert(is_digit(digits[0]));
    let l = seq!['l', 'a', 'm'] + digits;
    assert(l[0] == 'l');
    assert(l.take(3) =~= word_lam());
    assert(l.skip(3) =~= digits);
    let lp = seq!['l', 'a', 'm', '+'] + digits;
    assert(lp[0] == 'l');
    assert(lp.take(3) =~= word_lam());
    assert(lp.skip(3) =~= seq!['+'] + digits);
    let v = seq!['$'] + digits;
    assert(v[0] == '$');
    assert(v.drop_first() =~= digits);
    assert(v.len() >= 3 ==> v.take(3)[0] == '$');
    assert(v != word_define() && v != word_done() && v != word_app()) by {
        assert(word_define()[0] != '$' && word_done()[0] != '$' && word_app()[0] != '$');
    }
    assert(l != word_define() && l != word_done() && l != word_app()) by {
        assert(word_define()[0] != 'l' && word_done()[0] != 'l' && word_app()[0] != 'l');
    }
    let vp = seq!['$', '+'] + digits;
    assert(vp[0] == '$');
    assert(vp.drop_first() =~= seq!['+'] + digits);
    let vm = seq!['$', '-'] + digits;
    assert(vm[0] == '$');
    assert(vm.drop_first() =~= seq!['-'] + digits);
    let d = seq!['d', 'e', 'f', 'i', 'n', 'e'];
    assert(d.take(3)[0] == 'd');
    let o = seq!['d', 'o', 'n', 'e'];
    assert(o.take(3)[0] == 'd');
    assert(o != word_define());
    let a = seq!['a', 'p', 'p'];
    assert(a.take(3)[0] == 'a');
    assert(a != word_define() && a != word_done());
}

/// Only `define` and `lam{n}` bind variables: `define` binds one in its
/// body (child 1), `lam{n}` binds exactly `n` in its only child (child 0),
/// and no other child of any operator binds any.
pub proof fn lemma_binders(op: TsOpModel, j: int)
    ensures
        op_binds_child(TsOpModel::Define, 1) == 1,
        forall|n: u32| #[trigger] op_binds_child(TsOpModel::Lam(n), 0) == n,
        (op is Define && j == 1) || (op is Lam && j == 0) || op_binds_child(op, j) == 0,
{
}

/// Exactly the de Bruijn variables have an index, and a variable's index is
/// the one it was made with.
pub proof fn lemma_de_bruijn_indices(op: TsOpModel)
    ensures
        op_de_bruijn_index(op) is Some <==> op is Var,
        op matches TsOpModel::Var(n) ==> op_de_bruijn_index(op) == Some(n),
{
}

}
