//! Mathematical model of references and of their canonical text form.
use vstd::prelude::*;
use vstd::utf8::encode_utf8;

verus! {

/// A type reference as a value: names are character sequences, and the bound
/// type variables are an ordered list of (parameter name, reference) pairs.
pub enum TypeRefModel {
    Single { assem: Seq<char>, ty: Seq<char> },
    Generic(Seq<char>),
    WithGeneric { assem: Seq<char>, ty: Seq<char>, vars: Seq<(Seq<char>, TypeRefModel)> },
}

/// A method reference as a value.
pub enum MethodRefModel {
    Single(Seq<char>),
    WithGeneric(Seq<char>, Seq<(Seq<char>, TypeRefModel)>),
}

/// Which of the two parse failures occurred, with the text it refers to.
pub enum ParseFailure {
    AtType(Seq<char>),
    AtMethod(Seq<char>),
}

/// The position of the first `c` in `s`, or `s.len()` when there is none.
pub open spec fn find(s: Seq<char>, c: char) -> int
    decreases s.len(),
{
    if s.len() == 0 {
        0
    } else if s[0] == c {
        0
    } else {
        1 + find(s.drop_first(), c)
    }
}

/// The sequence of bound variables after binding `k` to `v`: an existing
/// binding of `k` keeps its place and takes the new value, otherwise the
/// binding goes last.
pub open spec fn insert_entry(
    vars: Seq<(Seq<char>, TypeRefModel)>,
    k: Seq<char>,
    v: TypeRefModel,
) -> Seq<(Seq<char>, TypeRefModel)> {
    if exists|i: int| 0 <= i < vars.len() && #[trigger] vars[i].0 == k {
        let i = choose|i: int| 0 <= i < vars.len() && #[trigger] vars[i].0 == k;
        vars.update(i, (k, v))
    } else {
        vars.push((k, v))
    }
}

/// No two bindings share a parameter name.
pub open spec fn keys_unique(vars: Seq<(Seq<char>, TypeRefModel)>) -> bool {
    forall|i: int, j: int|
        0 <= i < vars.len() && 0 <= j < vars.len() && i != j ==> vars[i].0 != vars[j].0
}

/// Canonical text of a type reference.
pub open spec fn encode_type(t: TypeRefModel) -> Seq<char>
    decreases t, 1nat,
{
    match t {
        TypeRefModel::Single { assem, ty } => seq!['['] + assem + seq![']'] + ty,
        TypeRefModel::Generic(name) => name,
        TypeRefModel::WithGeneric { assem, ty, vars } => seq!['['] + assem + seq![']'] + ty + seq!['[']
            + encode_vars(vars) + seq![']'],
    }
}

/// Text of a type reference without its leading `[assembly]` segment.
pub open spec fn encode_type_without_assembly(t: TypeRefModel) -> Seq<char> {
    match t {
        TypeRefModel::Single { assem, ty } => ty,
        TypeRefModel::Generic(name) => name,
        TypeRefModel::WithGeneric { assem, ty, vars } => ty + seq!['['] + encode_vars(vars) + seq![
            ']',
        ],
    }
}

/// Text of one binding: `name:reference`.
pub open spec fn encode_pair(p: (Seq<char>, TypeRefModel)) -> Seq<char>
    decreases p, 2nat,
{
    p.0 + seq![':'] + encode_type(p.1)
}

/// Bindings in order, joined by `|`.
pub open spec fn encode_vars(vars: Seq<(Seq<char>, TypeRefModel)>) -> Seq<char>
    decreases vars, 0nat,
{
    if vars.len() == 0 {
        Seq::empty()
    } else if vars.len() == 1 {
        encode_pair(vars[0])
    } else {
        encode_vars(vars.drop_last()) + seq!['|'] + encode_pair(vars.last())
    }
}

/// Canonical text of a method reference.
pub open spec fn encode_method(m: MethodRefModel) -> Seq<char> {
    match m {
        MethodRefModel::Single(sig) => sig,
        MethodRefModel::WithGeneric(sig, vars) => sig + seq!['['] + encode_vars(vars) + seq![']'],
    }
}

/// `find` never passes the end, and stops at the first `c`.
pub proof fn lemma_find(s: Seq<char>, c: char)
    ensures
        find(s, c) <= s.len(),
        find(s, c) < s.len() ==> s[find(s, c) as int] == c,
        forall|k: int| 0 <= k < find(s, c) ==> s[k] != c,
        0 <= find(s, c),
    decreases s.len(),
{
    if s.len() > 0 && s[0] != c {
        lemma_find(s.drop_first(), c);
        assert forall|k: int| 0 <= k < find(s, c) implies s[k] != c by {
            if k > 0 {
                assert(s[k] == s.drop_first()[k - 1]);
            }
        }
    }
}

/// A position before which no `c` occurs, and at which `c` occurs or the
/// sequence ends, is the one that `find` gives.
pub proof fn lemma_find_at(s: Seq<char>, c: char, i: int)
    requires
        0 <= i <= s.len(),
        forall|k: int| 0 <= k < i ==> s[k] != c,
        i == s.len() || s[i] == c,
    ensures
        find(s, c) == i,
    decreases s.len(),
{
    if i > 0 {
        let t = s.drop_first();
        assert forall|k: int| 0 <= k < i - 1 implies t[k] != c by {
            assert(t[k] == s[k + 1]);
        }
        lemma_find_at(t, c, i - 1);
    }
}

/// Parse of a type reference from its text; `None` on a structural violation.
pub open spec fn parse_type(s: Seq<char>) -> Option<TypeRefModel>
    decreases s.len(), 1nat,
    via parse_type_decreases
{
    if s.len() > 0 && s[0] == '@' {
        Some(TypeRefModel::Generic(s.drop_first()))
    } else if s.len() == 0 || s[0] != '[' {
        None
    } else {
        let i = find(s, ']');
        if i >= s.len() {
            None
        } else {
            let assem = s.subrange(1, i as int);
            let rest = s.subrange(i + 1, s.len() as int);
            let j = find(rest, '[');
            if j >= rest.len() {
                Some(TypeRefModel::Single { assem, ty: rest })
            } else if rest.last() != ']' {
                None
            } else {
                match parse_vars(rest.subrange(j + 1, rest.len() - 1), Seq::empty()) {
                    Some(vars) => Some(
                        TypeRefModel::WithGeneric { assem, ty: rest.subrange(0, j as int), vars },
                    ),
                    None => None,
                }
            }
        }
    }
}

#[via_fn]
proof fn parse_type_decreases(s: Seq<char>) {
    if s.len() > 0 && s[0] == '[' {
        lemma_find(s, ']');
        let i = find(s, ']');
        if i < s.len() {
            let rest = s.subrange(i + 1, s.len() as int);
            lemma_find(rest, '[');
        }
    }
}

/// Parse of a `|`-separated list of `name:reference` bindings (the separators
/// are found without regard to nesting), bound in order on top of `acc`.
pub open spec fn parse_vars(inner: Seq<char>, acc: Seq<(Seq<char>, TypeRefModel)>) -> Option<
    Seq<(Seq<char>, TypeRefModel)>,
>
    decreases inner.len(), 0nat,
    via parse_vars_decreases
{
    let p = find(inner, '|');
    let seg = inner.subrange(0, p as int);
    let c = find(seg, ':');
    if c >= seg.len() {
        None
    } else {
        match parse_type(seg.subrange(c + 1, seg.len() as int)) {
            None => None,
            Some(v) => {
                let acc2 = insert_entry(acc, seg.subrange(0, c as int), v);
                if p >= inner.len() {
                    Some(acc2)
                } else {
                    parse_vars(inner.subrange(p + 1, inner.len() as int), acc2)
                }
            },
        }
    }
}

#[via_fn]
proof fn parse_vars_decreases(inner: Seq<char>, acc: Seq<(Seq<char>, TypeRefModel)>) {
    lemma_find(inner, '|');
    let seg = inner.subrange(0, find(inner, '|') as int);
    lemma_find(seg, ':');
}

/// The references that the canonical text carries back to themselves: no
/// generic placeholder (written without its `@`), assembly names without `]`,
/// type names without `[`, at least one binding per generic instantiation,
/// binding names without `:` or `|`, distinct binding names, and, since the
/// bindings are split at every `|`, no `|` anywhere inside a bound reference,
/// whose own instantiations therefore bind one parameter each.
pub open spec fn encodable(t: TypeRefModel, nested: bool) -> bool
    decreases t,
{
    match t {
        TypeRefModel::Single { assem, ty } => {
            &&& !assem.contains(']')
            &&& !ty.contains('[')
            &&& nested ==> !assem.contains('|') && !ty.contains('|')
        },
        TypeRefModel::Generic(_) => false,
        TypeRefModel::WithGeneric { assem, ty, vars } => {
            &&& !assem.contains(']')
            &&& !ty.contains('[')
            &&& nested ==> !assem.contains('|') && !ty.contains('|') && vars.len() == 1
            &&& vars.len() > 0
            &&& keys_unique(vars)
            &&& forall|i: int|
                0 <= i < vars.len() ==> {
                    &&& !(#[trigger] vars[i]).0.contains(':')
                    &&& !vars[i].0.contains('|')
                    &&& encodable(vars[i].1, true)
                }
        },
    }
}

/// What hashing writes for a name: its UTF-8 bytes, then a `0xff` terminator.
pub open spec fn name_writes(n: Seq<char>) -> Seq<Seq<u8>> {
    seq![encode_utf8(n), seq![0xffu8]]
}

/// What hashing writes for a reference: a tag for its shape (0, 1 or 2), then
/// its names, then each binding's name and reference in order.
pub open spec fn hash_writes(t: TypeRefModel) -> Seq<Seq<u8>>
    decreases t, 1nat,
{
    match t {
        TypeRefModel::Single { assem, ty } => seq![seq![0u8]] + name_writes(assem) + name_writes(ty),
        TypeRefModel::Generic(name) => seq![seq![1u8]] + name_writes(name),
        TypeRefModel::WithGeneric { assem, ty, vars } => seq![seq![2u8]] + name_writes(assem)
            + name_writes(ty) + vars_writes(vars),
    }
}

/// What hashing writes for bindings, in order.
pub open spec fn vars_writes(vars: Seq<(Seq<char>, TypeRefModel)>) -> Seq<Seq<u8>>
    decreases vars, 0nat,
{
    if vars.len() == 0 {
        Seq::empty()
    } else {
        vars_writes(vars.drop_last()) + name_writes(vars.last().0) + hash_writes(vars.last().1)
    }
}

/// The end of the signature in `s`: the largest `e` with `lo + 2 <= e <= hi`
/// at which `)[` straddles, so that `s[e - 1] == ')'` and `s[e] == '['`.
pub open spec fn signature_end(s: Seq<char>, lo: int, hi: int) -> Option<int>
    decreases hi - lo,
{
    if hi < lo + 2 {
        None
    } else if s[hi - 1] == ')' && s[hi] == '[' {
        Some(hi)
    } else {
        signature_end(s, lo, hi - 1)
    }
}

/// Parse of a method reference: a signature `name(...)` taking everything up
/// to its last `)` that is followed by nothing or by a bracketed group of
/// bindings; no line breaks anywhere. The group's own brackets are its first
/// and last characters, so nested groups inside it are kept whole.
pub open spec fn parse_method(s: Seq<char>) -> Result<MethodRefModel, ParseFailure> {
    let p = find(s, '(');
    if s.contains('\n') || p >= s.len() {
        Err(ParseFailure::AtMethod(s))
    } else if s.last() == ')' {
        Ok(MethodRefModel::Single(s))
    } else if s.last() != ']' {
        Err(ParseFailure::AtMethod(s))
    } else {
        match signature_end(s, p, s.len() - 1) {
            None => Err(ParseFailure::AtMethod(s)),
            Some(e) => match parse_method_vars(s, s.subrange(e + 1, s.len() - 1), Seq::empty()) {
                Ok(vars) => Ok(MethodRefModel::WithGeneric(s.subrange(0, e), vars)),
                Err(f) => Err(f),
            },
        }
    }
}

/// Bindings of a method reference `s`, parsed as `parse_vars` does; a binding
/// without `:` fails at the method, a bound reference that does not parse
/// fails at its own text.
pub open spec fn parse_method_vars(
    s: Seq<char>,
    inner: Seq<char>,
    acc: Seq<(Seq<char>, TypeRefModel)>,
) -> Result<Seq<(Seq<char>, TypeRefModel)>, ParseFailure>
    decreases inner.len(),
    via parse_method_vars_decreases
{
    let p = find(inner, '|');
    let seg = inner.subrange(0, p as int);
    let c = find(seg, ':');
    if c >= seg.len() {
        Err(ParseFailure::AtMethod(s))
    } else {
        let text = seg.subrange(c + 1, seg.len() as int);
        match parse_type(text) {
            None => Err(ParseFailure::AtType(text)),
            Some(v) => {
                let acc2 = insert_entry(acc, seg.subrange(0, c as int), v);
                if p >= inner.len() {
                    Ok(acc2)
                } else {
                    parse_method_vars(s, inner.subrange(p + 1, inner.len() as int), acc2)
                }
            },
        }
    }
}

#[via_fn]
proof fn parse_method_vars_decreases(
    s: Seq<char>,
    inner: Seq<char>,
    acc: Seq<(Seq<char>, TypeRefModel)>,
) {
    lemma_find(inner, '|');
}

} // verus!
