//! Type and method references: canonical text, parsing, equality and hashing.
use crate::errors::ParseStrError;
use crate::model::{
    encode_pair,    encode_type, encode_type_without_assembly, encode_vars, find, lemma_find, lemma_find_at, parse_type, parse_vars, ParseFailure,
    TypeRefModel, hash_writes, name_writes, vars_writes,
};
use std::hash::{DefaultHasher, Hasher};
use vstd::std_specs::hash::DefaultHasherAdditionalSpecFns;
use crate::string_name::{chars_of, StringName};
use crate::type_vars::TypeVars;
use std::sync::Arc;
use vstd::prelude::*;
use vstd::slice::slice_subrange;
use vstd::string::StringExecFns;

verus! {

/// Identity of a type.
#[derive(Clone, Debug)]
pub enum StringTypeReference {
    /// A non-generic type within a named assembly.
    Single { assem: StringName, ty: StringName },
    /// An unresolved generic parameter, by name.
    Generic(StringName),
    /// A generic type applied to arguments, bound in order.
    WithGeneric { assem: StringName, ty: StringName, type_vars: Arc<TypeVars> },
}

impl View for StringTypeReference {
    type V = TypeRefModel;

    open spec fn view(&self) -> TypeRefModel {
        match self {
            StringTypeReference::Single { assem, ty } => TypeRefModel::Single {
                assem: assem@,
                ty: ty@,
            },
            StringTypeReference::Generic(name) => TypeRefModel::Generic(name@),
            StringTypeReference::WithGeneric { assem, ty, type_vars } => TypeRefModel::WithGeneric {
                assem: assem@,
                ty: ty@,
                vars: type_vars@,
            },
        }
    }
}

/// The position of the first `c` in `s`, or `s.len()`.
pub(crate) fn find_char(s: &[char], c: char) -> (r: usize)
    ensures
        r == find(s@, c),
{
    let mut i: usize = 0;
    while i < s.len() && s[i] != c
        invariant
            i <= s@.len(),
            forall|k: int| 0 <= k < i ==> s@[k] != c,
        decreases s@.len() - i,
    {
        i += 1;
    }
    proof {
        lemma_find_at(s@, c, i as int);
    }
    i
}

/// Appends the bindings of `vars`, joined by `|`.
pub(crate) fn write_vars(vars: &TypeVars, out: &mut String)
    ensures
        final(out)@ == old(out)@ + encode_vars(vars@),
    decreases vars@, 0nat,
{
    let n = vars.len();
    let mut i: usize = 0;
    while i < n
        invariant
            n == vars@.len(),
            i <= n,
            out@ == old(out)@ + encode_vars(vars@.take(i as int)),
        decreases n - i,
    {
        let (k, v) = vars.get_index(i);
        let ghost before = out@;
        proof {
            reveal_strlit("|");
            reveal_strlit(":");
        }
        if i > 0 {
            out.append("|");
        }
        out.append(k.as_str());
        out.append(":");
        proof {
            assert(decreases_to!(vars@ => vars@[i as int]));
        }
        v.write_repr(out);
        proof {
            let t = vars@.take(i as int + 1);
            assert(t.drop_last() =~= vars@.take(i as int));
            assert(t.last() == vars@[i as int]);
            if i == 0 {
                assert(encode_vars(t) == encode_pair(vars@[0]));
                assert(out@ =~= before + encode_pair(vars@[0]));
                assert(vars@.take(0) =~= Seq::<(Seq<char>, TypeRefModel)>::empty());
            } else {
                assert(encode_vars(t) == encode_vars(vars@.take(i as int)) + seq!['|'] + encode_pair(
                    vars@[i as int],
                ));
                assert(out@ =~= before + seq!['|'] + encode_pair(vars@[i as int]));
            }
        }
        i += 1;
    }
    assert(vars@.take(n as int) =~= vars@);
}

impl StringTypeReference {
    /// Appends the canonical text of this reference.
    fn write_repr(&self, out: &mut String)
        ensures
            final(out)@ == old(out)@ + encode_type(self@),
        decreases self@, 1nat,
    {
        proof {
            reveal_strlit("[");
            reveal_strlit("]");
        }
        match self {
            StringTypeReference::Single { assem, ty } => {
                out.append("[");
                out.append(assem.as_str());
                out.append("]");
                out.append(ty.as_str());
            },
            StringTypeReference::Generic(name) => {
                out.append(name.as_str());
            },
            StringTypeReference::WithGeneric { assem, ty, type_vars } => {
                out.append("[");
                out.append(assem.as_str());
                out.append("]");
                out.append(ty.as_str());
                out.append("[");
                proof {
                    let ghost m = self@;
                    assert(m == TypeRefModel::WithGeneric {
                        assem: assem@,
                        ty: ty@,
                        vars: type_vars@,
                    });
                    assert(decreases_to!(m => m->vars));
                }
                write_vars(type_vars, out);
                out.append("]");
            },
        }
    }

    /// The canonical text: `[assembly]name`, `[assembly]name[p:ref|...]`, or
    /// the bare name of a generic parameter.
    pub fn string_name_repr(&self) -> (r: StringName)
        ensures
            r@ == encode_type(self@),
    {
        let mut out = String::new();
        self.write_repr(&mut out);
        assert(out@ =~= encode_type(self@));
        StringName::from_string(out)
    }

    /// The canonical text without the leading `[assembly]` segment.
    pub fn string_name_repr_without_assembly(&self) -> (r: StringName)
        ensures
            r@ == encode_type_without_assembly(self@),
    {
        proof {
            reveal_strlit("[");
            reveal_strlit("]");
        }
        let mut out = String::new();
        match self {
            StringTypeReference::Single { assem: _, ty } => {
                out.append(ty.as_str());
            },
            StringTypeReference::Generic(name) => {
                out.append(name.as_str());
            },
            StringTypeReference::WithGeneric { assem: _, ty, type_vars } => {
                out.append(ty.as_str());
                out.append("[");
                write_vars(type_vars, &mut out);
                out.append("]");
            },
        }
        assert(out@ =~= encode_type_without_assembly(self@));
        StringName::from_string(out)
    }
}

/// Parses `name:reference` bindings separated by `|` onto `acc`; `false` when
/// the text is malformed.
fn parse_vars_into(inner: &[char], acc: &mut TypeVars) -> (ok: bool)
    ensures
        ok ==> parse_vars(inner@, old(acc)@) == Some(final(acc)@),
        !ok ==> parse_vars(inner@, old(acc)@) is None,
    decreases inner@.len(), 0nat,
{
    let p = find_char(inner, '|');
    proof {
        lemma_find(inner@, '|');
    }
    let seg = slice_subrange(inner, 0, p);
    let c = find_char(seg, ':');
    proof {
        lemma_find(seg@, ':');
    }
    if c >= seg.len() {
        return false;
    }
    match parse_type_chars(slice_subrange(seg, c + 1, seg.len())) {
        None => false,
        Some(v) => {
            let key = StringName::from_chars(slice_subrange(seg, 0, c));
            acc.insert(&key, v);
            if p >= inner.len() {
                true
            } else {
                parse_vars_into(slice_subrange(inner, p + 1, inner.len()), acc)
            }
        },
    }
}

/// Parses a type reference from its characters; `None` when malformed.
pub(crate) fn parse_type_chars(s: &[char]) -> (r: Option<StringTypeReference>)
    ensures
        match r {
            Some(t) => parse_type(s@) == Some(t@),
            None => parse_type(s@) is None,
        },
    decreases s@.len(), 1nat,
{
    let n = s.len();
    if n > 0 && s[0] == '@' {
        let name = slice_subrange(s, 1, n);
        assert(name@ =~= s@.drop_first());
        return Some(StringTypeReference::Generic(StringName::from_chars(name)));
    }
    if n == 0 || s[0] != '[' {
        return None;
    }
    let i = find_char(s, ']');
    proof {
        lemma_find(s@, ']');
    }
    if i >= n {
        return None;
    }
    let assem = StringName::from_chars(slice_subrange(s, 1, i));
    let rest = slice_subrange(s, i + 1, n);
    let j = find_char(rest, '[');
    proof {
        lemma_find(rest@, '[');
    }
    if j >= rest.len() {
        return Some(StringTypeReference::Single { assem, ty: StringName::from_chars(rest) });
    }
    if rest[rest.len() - 1] != ']' {
        return None;
    }
    let ty = StringName::from_chars(slice_subrange(rest, 0, j));
    let mut type_vars = TypeVars::new();
    if parse_vars_into(slice_subrange(rest, j + 1, rest.len() - 1), &mut type_vars) {
        Some(StringTypeReference::WithGeneric { assem, ty, type_vars: Arc::new(type_vars) })
    } else {
        None
    }
}

impl StringTypeReference {
    /// Parses the canonical text: `@name` is a generic parameter; otherwise
    /// `[assembly]name`, optionally followed by `[p:ref|...]`.
    pub fn from_string_repr(s: &str) -> (r: Result<Self, ParseStrError>)
        ensures
            match r {
                Ok(t) => parse_type(s@) == Some(t@),
                Err(e) => parse_type(s@) is None && e@ == ParseFailure::AtType(s@),
            },
    {
        let cs = chars_of(s);
        match parse_type_chars(cs.as_slice()) {
            Some(t) => Ok(t),
            None => Err(ParseStrError::AtStringTypeReference(StringName::from_str(s))),
        }
    }
}

/// Feeds a name to the hasher: its bytes, then `0xff`.
fn hash_name(name: &str, h: &mut DefaultHasher)
    ensures
        final(h)@ == old(h)@ + name_writes(name@),
{
    h.write(name.as_bytes());
    let end: [u8; 1] = [0xffu8];
    assert(end@ =~= seq![0xffu8]);
    h.write(&end);
    assert(final(h)@ =~= old(h)@ + name_writes(name@));
}

impl StringTypeReference {
    /// Field-wise equality; bindings are compared position by position.
    pub fn structural_eq(&self, other: &Self) -> (r: bool)
        ensures
            r == (self@ == other@),
        decreases self@,
    {
        match (self, other) {
            (
                StringTypeReference::Single { assem: a1, ty: t1 },
                StringTypeReference::Single { assem: a2, ty: t2 },
            ) => a1.equals(a2) && t1.equals(t2),
            (StringTypeReference::Generic(n1), StringTypeReference::Generic(n2)) => n1.equals(n2),
            (
                StringTypeReference::WithGeneric { assem: a1, ty: t1, type_vars: v1 },
                StringTypeReference::WithGeneric { assem: a2, ty: t2, type_vars: v2 },
            ) => {
                if !a1.equals(a2) || !t1.equals(t2) {
                    return false;
                }
                let n = v1.len();
                if n != v2.len() {
                    return false;
                }
                let ghost m = self@;
                assert(m == TypeRefModel::WithGeneric { assem: a1@, ty: t1@, vars: v1@ });
                assert(other@ == TypeRefModel::WithGeneric { assem: a2@, ty: t2@, vars: v2@ });
                let mut i: usize = 0;
                while i < n
                    invariant
                        n == v1@.len(),
                        n == v2@.len(),
                        i <= n,
                        m == (TypeRefModel::WithGeneric { assem: a1@, ty: t1@, vars: v1@ }),
                        other@ == (TypeRefModel::WithGeneric { assem: a2@, ty: t2@, vars: v2@ }),
                        m == self@,
                        forall|j: int| 0 <= j < i ==> v1@[j] == v2@[j],
                    decreases n - i,
                {
                    let (k1, x1) = v1.get_index(i);
                    let (k2, x2) = v2.get_index(i);
                    if !(*k1 == *k2) {
                        assert(v1@[i as int] != v2@[i as int]);
                        return false;
                    }
                    proof {
                        assert(decreases_to!(m => m->vars));
                        assert(decreases_to!(m->vars => m->vars[i as int]));
                        assert(decreases_to!(m->vars[i as int] => m->vars[i as int].1));
                        assert(decreases_to!(m => x1@));
                    }
                    if !x1.structural_eq(x2) {
                        assert(v1@[i as int] != v2@[i as int]);
                        return false;
                    }
                    i += 1;
                }
                assert(v1@ =~= v2@);
                true
            },
            _ => false,
        }
    }

    fn hash_into(&self, h: &mut DefaultHasher)
        ensures
            final(h)@ == old(h)@ + hash_writes(self@),
        decreases self@,
    {
        match self {
            StringTypeReference::Single { assem, ty } => {
                let tag: [u8; 1] = [0u8];
                assert(tag@ =~= seq![0u8]);
                h.write(&tag);
                hash_name(assem.as_str(), h);
                hash_name(ty.as_str(), h);
            },
            StringTypeReference::Generic(name) => {
                let tag: [u8; 1] = [1u8];
                assert(tag@ =~= seq![1u8]);
                h.write(&tag);
                hash_name(name.as_str(), h);
            },
            StringTypeReference::WithGeneric { assem, ty, type_vars } => {
                let tag: [u8; 1] = [2u8];
                assert(tag@ =~= seq![2u8]);
                h.write(&tag);
                hash_name(assem.as_str(), h);
                hash_name(ty.as_str(), h);
                let ghost m = self@;
                assert(m == TypeRefModel::WithGeneric { assem: assem@, ty: ty@, vars: type_vars@ });
                let ghost start = h@;
                let n = type_vars.len();
                let mut i: usize = 0;
                while i < n
                    invariant
                        n == type_vars@.len(),
                        i <= n,
                        m == (TypeRefModel::WithGeneric {
                            assem: assem@,
                            ty: ty@,
                            vars: type_vars@,
                        }),
                        m == self@,
                        h@ == start + vars_writes(type_vars@.take(i as int)),
                    decreases n - i,
                {
                    let (k, x) = type_vars.get_index(i);
                    hash_name(k.as_str(), h);
                    proof {
                        assert(decreases_to!(m => m->vars));
                        assert(decreases_to!(m->vars => m->vars[i as int]));
                        assert(decreases_to!(m->vars[i as int] => m->vars[i as int].1));
                        assert(decreases_to!(m => x@));
                    }
                    x.hash_into(h);
                    proof {
                        let t = type_vars@.take(i as int + 1);
                        assert(t.drop_last() =~= type_vars@.take(i as int));
                        assert(t.last() == type_vars@[i as int]);
                    }
                    i += 1;
                }
                assert(type_vars@.take(n as int) =~= type_vars@);
            },
        }
        assert(final(h)@ =~= old(h)@ + hash_writes(self@));
    }

    /// Hash of the reference: a function of its shape, names and bindings in
    /// order, so equal references hash alike.
    pub fn hash_code(&self) -> (r: u64)
        ensures
            r == DefaultHasher::spec_finish(hash_writes(self@)),
    {
        let mut h = DefaultHasher::new();
        self.hash_into(&mut h);
        assert(h@ =~= hash_writes(self@));
        h.finish()
    }
}

impl PartialEq for StringTypeReference {
    fn eq(&self, other: &Self) -> (r: bool) {
        self.structural_eq(other)
    }
}

impl vstd::std_specs::cmp::PartialEqSpecImpl for StringTypeReference {
    open spec fn obeys_eq_spec() -> bool {
        true
    }

    open spec fn eq_spec(&self, other: &Self) -> bool {
        self@ == other@
    }
}

impl Eq for StringTypeReference {

}

impl StringTypeReference {
    /// The name of the core assembly, `!`, which holds the intrinsic types.
    pub fn core_assembly_name() -> (r: StringName)
        ensures
            r@ == seq!['!'],
    {
        proof {
            reveal_strlit("!");
            assert("!"@ =~= seq!['!']);
        }
        StringName::from_static_str("!")
    }

    /// A non-generic type of the core assembly, named by a literal.
    pub fn core_static_single_type(ty: &'static str) -> (r: Self)
        ensures
            r@ == (TypeRefModel::Single { assem: seq!['!'], ty: ty@ }),
    {
        StringTypeReference::core_single_type(StringName::from_static_str(ty))
    }

    /// A non-generic type of the core assembly.
    pub fn core_single_type(ty: StringName) -> (r: Self)
        ensures
            r@ == (TypeRefModel::Single { assem: seq!['!'], ty: ty@ }),
    {
        StringTypeReference::Single { assem: StringTypeReference::core_assembly_name(), ty }
    }

    /// A generic type of the core assembly applied to `type_vars`.
    pub fn core_generic_type(ty: StringName, type_vars: Arc<TypeVars>) -> (r: Self)
        ensures
            r@ == (TypeRefModel::WithGeneric { assem: seq!['!'], ty: ty@, vars: type_vars@ }),
    {
        StringTypeReference::WithGeneric {
            assem: StringTypeReference::core_assembly_name(),
            ty,
            type_vars,
        }
    }

    /// The type name of a non-generic reference.
    pub fn unwrap_single_name_ref(&self) -> (r: &StringName)
        requires
            self is Single,
        ensures
            r@ == self@->Single_ty,
    {
        match self {
            StringTypeReference::Single { assem: _, ty } => ty,
            _ => unreached(),
        }
    }

    /// A non-generic type named by two literals.
    pub fn make_static_single(assem: &'static str, ty: &'static str) -> (r: Self)
        ensures
            r@ == (TypeRefModel::Single { assem: assem@, ty: ty@ }),
    {
        StringTypeReference::Single {
            assem: StringName::from_static_str(assem),
            ty: StringName::from_static_str(ty),
        }
    }

    /// Whether this is an unresolved generic parameter.
    pub fn is_generic(&self) -> (r: bool)
        ensures
            r == self@ is Generic,
    {
        match self {
            StringTypeReference::Generic(_) => true,
            _ => false,
        }
    }

    /// The assembly of the type; a generic parameter has none.
    pub fn assembly_name(&self) -> (r: Option<&StringName>)
        ensures
            match self@ {
                TypeRefModel::Single { assem, ty: _ } => r is Some && r->0@ == assem,
                TypeRefModel::WithGeneric { assem, ty: _, vars: _ } => r is Some && r->0@ == assem,
                TypeRefModel::Generic(_) => r is None,
            },
    {
        match self {
            StringTypeReference::Single { assem, ty: _ } => Some(assem),
            StringTypeReference::Generic(_) => None,
            StringTypeReference::WithGeneric { assem, ty: _, type_vars: _ } => Some(assem),
        }
    }
}

} // verus!
