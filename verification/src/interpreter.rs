//! The tree-walking evaluator.
//!
//! The split between `Context` and `State` keeps the function table
//! immutable while the rest of the runtime state mutates: evaluation
//! borrows the table and the state separately. Arrays live in an arena
//! inside the state; an `Object::Array` value is an index into it, so
//! copying the value copies the handle and every alias observes writes
//! through any other. Input is a fixed sequence of lines consumed by the
//! `readln` family; output is a byte transcript that `print` and
//! `println` extend. Every operation's contract equates its effect with
//! the big-step semantics in [`model`](crate::interpreter::model).

use vstd::prelude::*;

pub mod eval;
pub mod model;

pub use model::{ObjV, RtErr, StateS};

use crate::analyzer::bytes_clone;
use crate::ast::{Fun, FunS, Ident};
use model::{RFrameS, spec_dec_digits, spec_get, spec_i32_text, spec_obj_text,
    spec_parse_i32, spec_parse_bool, spec_rframe_lookup, spec_set_in, spec_var, spec_bytes_lt, spec_obj_lt, bytes_true,
    bytes_false};

verus! {

broadcast use vstd::std_specs::vec::group_vec_axioms, crate::ast::group_ast_views;

/// A runtime value. `Array` holds a handle into the state's arena.
#[derive(Debug)]
pub enum Object {
    Unit,
    Int(i32),
    String(Vec<u8>),
    Boolean(bool),
    Char(u8),
    Array(usize),
    Range(Box<Object>, Box<Object>),
}

pub open spec fn obj_view(o: Object) -> ObjV
    decreases o,
{
    match o {
        Object::Unit => ObjV::Unit,
        Object::Int(n) => ObjV::Int(n),
        Object::String(s) => ObjV::Str(s@),
        Object::Boolean(b) => ObjV::Bool(b),
        Object::Char(c) => ObjV::Char(c),
        Object::Array(h) => ObjV::Arr(h as int),
        Object::Range(l, r) => ObjV::Range(Box::new(obj_view(*l)), Box::new(obj_view(*r))),
    }
}

pub open spec fn rres_view(r: Result<Object, RtErr>) -> Result<ObjV, RtErr> {
    match r {
        Ok(o) => Ok(obj_view(o)),
        Err(e) => Err(e),
    }
}

pub open spec fn rframe_view(f: Seq<(Ident, Object)>) -> RFrameS {
    f.map_values(|p: (Ident, Object)| (p.0.0@, obj_view(p.1)))
}

pub open spec fn rscopes_view(s: Seq<Vec<(Ident, Object)>>) -> Seq<RFrameS> {
    s.map_values(|fr: Vec<(Ident, Object)>| rframe_view(fr@))
}

pub open spec fn row_view(r: Seq<Object>) -> Seq<ObjV> {
    r.map_values(|o: Object| obj_view(o))
}

pub open spec fn arrays_view(a: Seq<Vec<Object>>) -> Seq<Seq<ObjV>> {
    a.map_values(|row: Vec<Object>| row_view(row@))
}

pub open spec fn input_view(i: Seq<Vec<u8>>) -> Seq<Seq<u8>> {
    i.map_values(|l: Vec<u8>| l@)
}

/// The mutable part of the runtime: everything but the function table.
#[derive(Debug)]
pub struct State {
    pub scopes: Vec<Vec<(Ident, Object)>>,
    pub arrays: Vec<Vec<Object>>,
    pub ret_item: Option<Object>,
    pub input: Vec<Vec<u8>>,
    pub in_pos: usize,
    pub output: Vec<u8>,
}

/// The whole abstract state a function table and a `State` denote.
pub open spec fn mk_state(funs: Seq<FunS>, s: State) -> StateS {
    StateS {
        funs: funs,
        scopes: rscopes_view(s.scopes@),
        arrays: arrays_view(s.arrays@),
        ret: match s.ret_item {
            Some(o) => Some(obj_view(o)),
            None => None,
        },
        input: input_view(s.input@),
        in_pos: s.in_pos as int,
        output: s.output@,
    }
}

/// The evaluator: the program's functions and the running state.
#[derive(Debug)]
pub struct Context {
    pub functions: Vec<Fun>,
    pub state: State,
}

/// A copy of a value: data for the value kinds, the handle for an
/// array, so the copy aliases the same backing.
pub fn obj_clone(o: &Object) -> (r: Object)
    ensures
        obj_view(r) == obj_view(*o),
    decreases *o,
{
    match o {
        Object::Unit => Object::Unit,
        Object::Int(n) => Object::Int(*n),
        Object::String(s) => Object::String(bytes_clone(s)),
        Object::Boolean(b) => Object::Boolean(*b),
        Object::Char(c) => Object::Char(*c),
        Object::Array(h) => Object::Array(*h),
        Object::Range(l, r) => Object::Range(Box::new(obj_clone(l)), Box::new(obj_clone(r))),
    }
}

/// The decimal digits of a non-negative number.
fn dec_digits(m: u32) -> (r: Vec<u8>)
    ensures
        r@ == spec_dec_digits(m as int),
    decreases m,
{
    if m < 10 {
        let mut v: Vec<u8> = Vec::new();
        v.push(48 + (m as u8));
        proof {
            assert(v@ =~= spec_dec_digits(m as int));
        }
        v
    } else {
        let mut v = dec_digits(m / 10);
        let ghost pre = v@;
        v.push(48 + ((m % 10) as u8));
        proof {
            assert(v@ =~= pre + seq![(48 + (m as int) % 10) as u8]);
        }
        v
    }
}

/// The decimal text of a signed 32-bit value.
pub fn i32_text(n: i32) -> (r: Vec<u8>)
    ensures
        r@ == spec_i32_text(n),
{
    if n < 0 {
        let mag: u32 = if n == i32::MIN {
            0x8000_0000
        } else {
            (-n) as u32
        };
        let digits = dec_digits(mag);
        let mut v: Vec<u8> = Vec::new();
        v.push(45);
        let mut k: usize = 0;
        while k < digits.len()
            invariant
                k <= digits@.len(),
                v@ == seq![45u8] + digits@.subrange(0, k as int),
            decreases digits@.len() - k,
        {
            v.push(digits[k]);
            proof {
                assert(digits@.subrange(0, k + 1) =~= digits@.subrange(0, k as int).push(
                    digits@[k as int],
                ));
                assert(v@ =~= seq![45u8] + digits@.subrange(0, k + 1));
            }
            k += 1;
        }
        proof {
            assert(digits@.subrange(0, digits@.len() as int) =~= digits@);
        }
        v
    } else {
        dec_digits(n as u32)
    }
}

/// What printing a value appends, or nothing for a value kind with no
/// text.
pub fn obj_text(o: &Object) -> (r: Option<Vec<u8>>)
    ensures
        match r {
            Some(t) => spec_obj_text(obj_view(*o)) == Some(t@),
            None => spec_obj_text(obj_view(*o)) is None,
        },
{
    match o {
        Object::Int(n) => Some(i32_text(*n)),
        Object::String(s) => Some(bytes_clone(s)),
        Object::Boolean(b) => {
            let mut v: Vec<u8> = Vec::new();
            if *b {
                v.push(116);
                v.push(114);
                v.push(117);
                v.push(101);
                proof {
                    assert(v@ =~= bytes_true());
                }
            } else {
                v.push(102);
                v.push(97);
                v.push(108);
                v.push(115);
                v.push(101);
                proof {
                    assert(v@ =~= bytes_false());
                }
            }
            Some(v)
        },
        Object::Char(c) => {
            let mut v: Vec<u8> = Vec::new();
            v.push(*c);
            proof {
                assert(v@ =~= seq![obj_view(*o)->Char_0]);
            }
            Some(v)
        },
        _ => None,
    }
}

/// Lexicographic order on byte strings from position `i` on.
fn bytes_lt_from(a: &Vec<u8>, b: &Vec<u8>, i: usize) -> (r: bool)
    requires
        i <= a@.len(),
        i <= b@.len(),
    ensures
        r == spec_bytes_lt(a@.skip(i as int), b@.skip(i as int)),
    decreases a@.len() - i,
{
    if i == a.len() {
        b.len() > i
    } else if i == b.len() {
        proof {
            assert(b@.skip(i as int).len() == 0);
            assert(a@.skip(i as int).len() > 0);
        }
        false
    } else {
        proof {
            assert(a@.skip(i as int).first() == a@[i as int]);
            assert(b@.skip(i as int).first() == b@[i as int]);
            assert(a@.skip(i as int).drop_first() =~= a@.skip(i + 1));
            assert(b@.skip(i as int).drop_first() =~= b@.skip(i + 1));
        }
        if a[i] < b[i] {
            true
        } else if a[i] > b[i] {
            false
        } else {
            bytes_lt_from(a, b, i + 1)
        }
    }
}

/// Whether the left value is strictly smaller; `None` when the two have
/// no order.
pub fn obj_lt(l: &Object, r: &Object) -> (res: Option<bool>)
    ensures
        res == spec_obj_lt(obj_view(*l), obj_view(*r)),
{
    match (l, r) {
        (Object::Int(a), Object::Int(b)) => Some(*a < *b),
        (Object::String(a), Object::String(b)) => {
            proof {
                assert(a@.skip(0) =~= a@);
                assert(b@.skip(0) =~= b@);
            }
            Some(bytes_lt_from(a, b, 0))
        },
        (Object::Boolean(a), Object::Boolean(b)) => Some(!*a && *b),
        (Object::Char(a), Object::Char(b)) => Some(*a < *b),
        _ => None,
    }
}

/// The signed value one whole input line denotes.
pub fn parse_i32_line(w: &Vec<u8>) -> (r: Option<i32>)
    ensures
        r == spec_parse_i32(w@),
{
    let (neg, d0): (bool, usize) = if w.len() > 0 && (w[0] == 43 || w[0] == 45) {
        (w[0] == 45, 1)
    } else {
        (false, 0)
    };
    if w.len() == d0 {
        proof {
            assert(w@.skip(d0 as int).len() == 0);
        }
        return None;
    }
    let ghost digits = w@.skip(d0 as int);
    let mut acc: u64 = 0;
    let mut overflow = false;
    let mut valid = true;
    let mut k: usize = d0;
    while k < w.len()
        invariant
            d0 <= k <= w@.len(),
            digits == w@.skip(d0 as int),
            valid == crate::lexer::token::spec_digits_valid(digits.subrange(0, k - d0), 10),
            valid ==> (overflow <==> crate::lexer::token::spec_digits_val(
                digits.subrange(0, k - d0),
                10,
            ) > 0x8000_0000),
            valid && !overflow ==> acc == crate::lexer::token::spec_digits_val(
                digits.subrange(0, k - d0),
                10,
            ) && acc <= 0x8000_0000,
        decreases w@.len() - k,
    {
        let ghost pre = digits.subrange(0, k - d0);
        let ghost post = digits.subrange(0, k + 1 - d0);
        proof {
            assert(post.drop_last() =~= pre);
            assert(post.last() == digits[k - d0]);
            assert(digits[k - d0] == w@[k as int]);
        }
        let b = w[k];
        if b < 48 || b > 57 {
            valid = false;
            proof {
                assert(crate::lexer::token::spec_digit_val(w@[k as int]) >= 10);
            }
        } else if valid {
            let d = (b - 48) as u64;
            if !overflow {
                let next = acc * 10 + d;
                if next > 0x8000_0000 {
                    overflow = true;
                } else {
                    acc = next;
                }
            } else {
                proof {
                    crate::lexer::token::lemma_digits_val_nonneg(pre, 10);
                    assert(crate::lexer::token::spec_digits_val(pre, 10) * 10
                        + crate::lexer::token::spec_digit_val(w@[k as int]) > 0x8000_0000)
                        by (nonlinear_arith)
                        requires
                            crate::lexer::token::spec_digits_val(pre, 10) > 0x8000_0000,
                            crate::lexer::token::spec_digit_val(w@[k as int]) >= 0,
                    ;
                }
            }
        }
        k += 1;
    }
    proof {
        assert(digits.subrange(0, digits.len() as int) =~= digits);
    }
    if !valid || overflow {
        return None;
    }
    if !neg {
        if acc <= 0x7fff_ffff {
            Some(acc as i32)
        } else {
            None
        }
    } else {
        if acc == 0x8000_0000 {
            Some(i32::MIN)
        } else {
            Some(-(acc as i32))
        }
    }
}

/// The boolean one whole input line denotes: exactly `true` or `false`.
pub fn parse_bool_line(w: &Vec<u8>) -> (r: Option<bool>)
    ensures
        r == spec_parse_bool(w@),
{
    if w.len() == 4 && w[0] == 116 && w[1] == 114 && w[2] == 117 && w[3] == 101 {
        proof {
            assert(w@ =~= bytes_true());
        }
        Some(true)
    } else if w.len() == 5 && w[0] == 102 && w[1] == 97 && w[2] == 108 && w[3] == 115 && w[4]
        == 101 {
        proof {
            assert(w@ =~= bytes_false());
        }
        Some(false)
    } else {
        proof {
            if w@ == bytes_true() {
                assert(w@.len() == 4 && w@[0] == 116 && w@[1] == 114 && w@[2] == 117 && w@[3]
                    == 101);
            }
            if w@ == bytes_false() {
                assert(w@.len() == 5 && w@[0] == 102 && w@[1] == 97 && w@[2] == 108 && w@[3] == 115
                    && w@[4] == 101);
            }
        }
        None
    }
}

/// The last matching binding of one frame, as a copied value.
fn rframe_get(frame: &Vec<(Ident, Object)>, name: &Vec<u8>) -> (r: Option<Object>)
    ensures
        match r {
            Some(o) => spec_rframe_lookup(rframe_view(frame@), name@) == Some(obj_view(o)),
            None => spec_rframe_lookup(rframe_view(frame@), name@) is None,
        },
{
    let mut j: usize = frame.len();
    proof {
        assert(rframe_view(frame@).subrange(0, frame@.len() as int) =~= rframe_view(frame@));
    }
    while j > 0
        invariant
            j <= frame@.len(),
            spec_rframe_lookup(rframe_view(frame@), name@) == spec_rframe_lookup(
                rframe_view(frame@).subrange(0, j as int),
                name@,
            ),
        decreases j,
    {
        proof {
            assert(rframe_view(frame@).subrange(0, j as int).last() == rframe_view(frame@)[j - 1]);
            assert(rframe_view(frame@).subrange(0, j as int).drop_last() =~= rframe_view(
                frame@,
            ).subrange(0, j - 1));
        }
        if crate::analyzer::bytes_eq(&frame[j - 1].0.0, name) {
            return Some(obj_clone(&frame[j - 1].1));
        }
        j -= 1;
    }
    proof {
        assert(rframe_view(frame@).subrange(0, 0) =~= Seq::<(Seq<u8>, ObjV)>::empty());
    }
    None
}

impl State {
    /// The value bound to a name, innermost scope first.
    pub fn get(&self, name: &Vec<u8>) -> (r: Option<Object>)
        ensures
            match r {
                Some(o) => spec_get(rscopes_view(self.scopes@), name@) == Some(obj_view(o)),
                None => spec_get(rscopes_view(self.scopes@), name@) is None,
            },
    {
        let mut j: usize = self.scopes.len();
        proof {
            assert(rscopes_view(self.scopes@).subrange(0, self.scopes@.len() as int)
                =~= rscopes_view(self.scopes@));
        }
        while j > 0
            invariant
                j <= self.scopes@.len(),
                spec_get(rscopes_view(self.scopes@), name@) == spec_get(
                    rscopes_view(self.scopes@).subrange(0, j as int),
                    name@,
                ),
            decreases j,
        {
            proof {
                assert(rscopes_view(self.scopes@).subrange(0, j as int).last() == rscopes_view(
                    self.scopes@,
                )[j - 1]);
                assert(rscopes_view(self.scopes@).subrange(0, j as int).drop_last() =~= rscopes_view(
                    self.scopes@,
                ).subrange(0, j - 1));
            }
            match rframe_get(&self.scopes[j - 1], name) {
                Some(o) => {
                    return Some(o);
                },
                None => {},
            }
            j -= 1;
        }
        proof {
            assert(rscopes_view(self.scopes@).subrange(0, 0) =~= Seq::<RFrameS>::empty());
        }
        None
    }

    /// A fresh binding in the innermost scope, shadowing any outer one.
    pub fn var(&mut self, name: Ident, obj: Object)
        ensures
            rscopes_view(final(self).scopes@) == model::spec_var_in(
                rscopes_view(old(self).scopes@),
                name.0@,
                obj_view(obj),
            ),
            final(self).arrays == old(self).arrays,
            final(self).ret_item == old(self).ret_item,
            final(self).input == old(self).input,
            final(self).in_pos == old(self).in_pos,
            final(self).output == old(self).output,
    {
        let ghost nm = name.0@;
        let ghost ov = obj_view(obj);
        match self.scopes.pop() {
            Some(mut frame) => {
                proof {
                    assert(rscopes_view(old(self).scopes@).last() == rframe_view(frame@));
                }
                let ghost fv = rframe_view(frame@);
                frame.push((name, obj));
                proof {
                    assert(rframe_view(frame@) =~= fv.push((nm, ov)));
                }
                self.scopes.push(frame);
                proof {
                    assert(rscopes_view(self.scopes@) =~= rscopes_view(old(self).scopes@).update(
                        rscopes_view(old(self).scopes@).len() - 1,
                        fv.push((nm, ov)),
                    ));
                }
            },
            None => {
                proof {
                    assert(rscopes_view(self.scopes@).len() == 0);
                }
            },
        }
    }

    pub fn push(&mut self)
        ensures
            rscopes_view(final(self).scopes@) == rscopes_view(old(self).scopes@).push(
                Seq::empty(),
            ),
            final(self).arrays == old(self).arrays,
            final(self).ret_item == old(self).ret_item,
            final(self).input == old(self).input,
            final(self).in_pos == old(self).in_pos,
            final(self).output == old(self).output,
    {
        self.scopes.push(Vec::new());
        proof {
            assert(rframe_view(Seq::<(Ident, Object)>::empty()) =~= Seq::<
                (Seq<u8>, ObjV),
            >::empty());
            assert(rscopes_view(self.scopes@) =~= rscopes_view(old(self).scopes@).push(
                Seq::empty(),
            ));
        }
    }

    pub fn pop(&mut self)
        ensures
            rscopes_view(final(self).scopes@) == (if rscopes_view(old(self).scopes@).len() > 0 {
                rscopes_view(old(self).scopes@).drop_last()
            } else {
                rscopes_view(old(self).scopes@)
            }),
            final(self).arrays == old(self).arrays,
            final(self).ret_item == old(self).ret_item,
            final(self).input == old(self).input,
            final(self).in_pos == old(self).in_pos,
            final(self).output == old(self).output,
    {
        if self.scopes.len() > 0 {
            let _ = self.scopes.pop();
            proof {
                assert(rscopes_view(self.scopes@) =~= rscopes_view(old(self).scopes@).drop_last());
            }
        }
    }
}

impl State {
    /// Overwrites the innermost existing binding of `name`.
    pub fn set(&mut self, name: &Vec<u8>, obj: Object) -> (found: bool)
        ensures
            match spec_set_in(rscopes_view(old(self).scopes@), name@, obj_view(obj)) {
                Some(sc) => found && rscopes_view(final(self).scopes@) == sc,
                None => !found && rscopes_view(final(self).scopes@) == rscopes_view(
                    old(self).scopes@,
                ),
            },
            final(self).arrays == old(self).arrays,
            final(self).ret_item == old(self).ret_item,
            final(self).input == old(self).input,
            final(self).in_pos == old(self).in_pos,
            final(self).output == old(self).output,
    {
        set_in_scopes(&mut self.scopes, name, obj)
    }
}

/// Overwrites the innermost existing binding of `name`, leaving frames
/// above it untouched; false when no frame holds the name.
pub fn set_in_scopes(scopes: &mut Vec<Vec<(Ident, Object)>>, name: &Vec<u8>, obj: Object) -> (found:
    bool)
    ensures
        match spec_set_in(rscopes_view(old(scopes)@), name@, obj_view(obj)) {
            Some(sc) => found && rscopes_view(final(scopes)@) == sc,
            None => !found && rscopes_view(final(scopes)@) == rscopes_view(old(scopes)@),
        },
    decreases old(scopes)@.len(),
{
    let ghost ov = obj_view(obj);
    match scopes.pop() {
        None => {
            proof {
                assert(rscopes_view(scopes@).len() == 0);
            }
            false
        },
        Some(mut frame) => {
            proof {
                assert(rscopes_view(old(scopes)@).last() == rframe_view(frame@));
                assert(rscopes_view(old(scopes)@).drop_last() =~= rscopes_view(scopes@));
            }
            let has = match rframe_get(&frame, name) {
                Some(_) => true,
                None => false,
            };
            if has {
                let ghost fv = rframe_view(frame@);
                frame.push((Ident(bytes_clone(name)), obj));
                proof {
                    assert(rframe_view(frame@) =~= fv.push((name@, ov)));
                }
                scopes.push(frame);
                proof {
                    assert(rscopes_view(scopes@) =~= rscopes_view(old(scopes)@).update(
                        rscopes_view(old(scopes)@).len() - 1,
                        fv.push((name@, ov)),
                    ));
                }
                true
            } else {
                let found = set_in_scopes(scopes, name, obj);
                let ghost inner = rscopes_view(scopes@);
                scopes.push(frame);
                proof {
                    assert(rscopes_view(scopes@) =~= inner.push(rframe_view(frame@)));
                }
                found
            }
        },
    }
}

} // verus!
