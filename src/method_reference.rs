//! Method references: a signature, optionally with bound type variables.
use crate::errors::ParseStrError;
use crate::model::{
    encode_method, encode_vars, find, lemma_find, parse_method, parse_method_vars,
    signature_end, MethodRefModel, ParseFailure, TypeRefModel,
};
use crate::string_name::{chars_of, StringName};
use crate::string_reference::{find_char, parse_type_chars, write_vars};
use crate::type_vars::TypeVars;
use std::sync::Arc;
use vstd::prelude::*;
use vstd::slice::slice_subrange;
use vstd::string::StringExecFns;

verus! {

/// Identity of a method.
#[derive(Clone, Debug)]
pub enum StringMethodReference {
    /// A full signature such as `A([!]A,[!]B)`: name and parenthesized
    /// parameter types, without spaces around the commas.
    Single(StringName),
    /// A signature with the type variables bound to it, in order.
    WithGeneric(StringName, Arc<TypeVars>),
}

impl View for StringMethodReference {
    type V = MethodRefModel;

    open spec fn view(&self) -> MethodRefModel {
        match self {
            StringMethodReference::Single(sig) => MethodRefModel::Single(sig@),
            StringMethodReference::WithGeneric(sig, vars) => MethodRefModel::WithGeneric(
                sig@,
                vars@,
            ),
        }
    }
}

/// Parses the bindings of the method reference `s` onto `acc`.
fn parse_method_vars_into(s: &[char], inner: &[char], acc: &mut TypeVars) -> (r: Result<
    (),
    ParseStrError,
>)
    ensures
        match r {
            Ok(_) => parse_method_vars(s@, inner@, old(acc)@) == Ok::<_, ParseFailure>(final(acc)@),
            Err(e) => parse_method_vars(s@, inner@, old(acc)@) == Err::<Seq<(Seq<char>, TypeRefModel)>, ParseFailure>(e@),
        },
    decreases inner@.len(),
{
    let p = find_char(inner, '|');
    proof {
        lemma_find(inner@, '|');
    }
    let seg = slice_subrange(inner, 0, p);
    let c = find_char(seg, ':');
    proof {
        lemma_find(seg@, ':');
    }
    if c >= seg.len() {
        return Err(ParseStrError::AtStringMethodReference(StringName::from_chars(s)));
    }
    let text = slice_subrange(seg, c + 1, seg.len());
    match parse_type_chars(text) {
        None => Err(ParseStrError::AtStringTypeReference(StringName::from_chars(text))),
        Some(v) => {
            let key = StringName::from_chars(slice_subrange(seg, 0, c));
            acc.insert(&key, v);
            if p >= inner.len() {
                Ok(())
            } else {
                parse_method_vars_into(s, slice_subrange(inner, p + 1, inner.len()), acc)
            }
        },
    }
}

impl StringMethodReference {
    /// The reference to a type's static initializer, `.sctor()`.
    pub fn static_ctor_ref() -> (r: Self)
        ensures
            r@ == MethodRefModel::Single(seq!['.', 's', 'c', 't', 'o', 'r', '(', ')']),
    {
        proof {
            reveal_strlit(".sctor()");
            assert(".sctor()"@ =~= seq!['.', 's', 'c', 't', 'o', 'r', '(', ')']);
        }
        StringMethodReference::Single(StringName::from_static_str(".sctor()"))
    }

    /// A non-generic reference from a literal signature.
    pub fn static_single(name: &'static str) -> (r: Self)
        ensures
            r@ == MethodRefModel::Single(name@),
    {
        StringMethodReference::Single(StringName::from_static_str(name))
    }

    /// The canonical text: the signature, followed by `[p:ref|...]` when
    /// type variables are bound.
    pub fn string_name_repr(&self) -> (r: StringName)
        ensures
            r@ == encode_method(self@),
    {
        match self {
            StringMethodReference::Single(sig) => sig.clone_name(),
            StringMethodReference::WithGeneric(sig, vars) => {
                proof {
                    reveal_strlit("[");
                    reveal_strlit("]");
                }
                let mut out = String::new();
                out.append(sig.as_str());
                out.append("[");
                write_vars(vars, &mut out);
                out.append("]");
                assert(out@ =~= encode_method(self@));
                StringName::from_string(out)
            },
        }
    }

    /// Parses a method reference: a signature `name(...)`, optionally followed
    /// by a bracketed group of `p:ref` bindings separated by `|`.
    pub fn from_string_repr(s: &str) -> (r: Result<Self, ParseStrError>)
        ensures
            match r {
                Ok(m) => parse_method(s@) == Ok::<_, ParseFailure>(m@),
                Err(e) => parse_method(s@) == Err::<MethodRefModel, _>(e@),
            },
    {
        let cs = chars_of(s);
        let n = cs.len();
        let mut i: usize = 0;
        while i < n
            invariant
                n == cs@.len(),
                cs@ == s@,
                i <= n,
                forall|k: int| 0 <= k < i ==> cs@[k] != '\n',
            decreases n - i,
        {
            if cs[i] == '\n' {
                assert(cs@[i as int] == '\n');
                assert(s@.contains('\n'));
                assert(parse_method(s@) == Err::<MethodRefModel, ParseFailure>(
                    ParseFailure::AtMethod(s@),
                ));
                return Err(ParseStrError::AtStringMethodReference(StringName::from_str(s)));
            }
            i += 1;
        }
        assert(!cs@.contains('\n'));
        let p = find_char(cs.as_slice(), '(');
        assert(cs@ == s@);
        assert(p == find(s@, '('));
        if p >= n {
            assert(parse_method(s@) == Err::<MethodRefModel, ParseFailure>(ParseFailure::AtMethod(s@)));
            return Err(ParseStrError::AtStringMethodReference(StringName::from_str(s)));
        }
        if cs[n - 1] == ')' {
            return Ok(StringMethodReference::Single(StringName::from_str(s)));
        }
        if cs[n - 1] != ']' {
            return Err(ParseStrError::AtStringMethodReference(StringName::from_str(s)));
        }
        let mut e: usize = n - 1;
        while e - p >= 2 && !(cs[e - 1] == ')' && cs[e] == '[')
            invariant
                n == cs@.len(),
                p < n,
                p <= e <= n - 1,
                signature_end(cs@, p as int, n - 1) == signature_end(cs@, p as int, e as int),
            decreases e,
        {
            e -= 1;
        }
        if e - p < 2 {
            return Err(ParseStrError::AtStringMethodReference(StringName::from_str(s)));
        }
        let mut vars = TypeVars::new();
        match parse_method_vars_into(cs.as_slice(), slice_subrange(cs.as_slice(), e + 1, n - 1), &mut vars) {
            Ok(_) => Ok(
                StringMethodReference::WithGeneric(
                    StringName::from_chars(slice_subrange(cs.as_slice(), 0, e)),
                    Arc::new(vars),
                ),
            ),
            Err(err) => Err(err),
        }
    }
}

impl StringMethodReference {
    /// The signature of a non-generic reference.
    pub fn unwrap_single(self) -> (r: StringName)
        requires
            self is Single,
        ensures
            r@ == self@->Single_0,
    {
        match self {
            StringMethodReference::Single(sig) => sig,
            _ => unreached(),
        }
    }

    /// The signature and bindings of a generic reference.
    pub fn unwrap_with_generic(self) -> (r: (StringName, Arc<TypeVars>))
        requires
            self is WithGeneric,
        ensures
            r.0@ == self@->WithGeneric_0,
            r.1@ == self@->WithGeneric_1,
    {
        match self {
            StringMethodReference::WithGeneric(sig, vars) => (sig, vars),
            _ => unreached(),
        }
    }
}

} // verus!
