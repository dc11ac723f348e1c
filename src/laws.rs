//! Laws relating the canonical text, the parser and hashing.
use crate::model::{
    encodable, encode_method, hash_writes, parse_method, parse_method_vars, signature_end,
    MethodRefModel, ParseFailure, encode_pair, encode_type, encode_vars, find, insert_entry, keys_unique,
    lemma_find, lemma_find_at, parse_type, parse_vars, TypeRefModel,
};
use std::hash::DefaultHasher;
use vstd::prelude::*;
use vstd::std_specs::hash::DefaultHasherAdditionalSpecFns;

verus! {

proof fn lemma_find_none(a: Seq<char>, c: char)
    requires
        !a.contains(c),
    ensures
        find(a, c) == a.len(),
{
    assert forall|k: int| 0 <= k < a.len() implies a[k] != c by {
        if a[k] == c {
            assert(a.contains(c));
        }
    }
    lemma_find_at(a, c, a.len() as int);
}

proof fn lemma_find_after(a: Seq<char>, b: Seq<char>, c: char)
    requires
        !a.contains(c),
        b.len() > 0,
        b[0] == c,
    ensures
        find(a + b, c) == a.len(),
{
    assert forall|k: int| 0 <= k < a.len() implies (a + b)[k] != c by {
        if (a + b)[k] == c {
            assert(a[k] == c);
            assert(a.contains(c));
        }
    }
    lemma_find_at(a + b, c, a.len() as int);
}

proof fn lemma_not_contains_concat(a: Seq<char>, b: Seq<char>, c: char)
    requires
        !a.contains(c),
        !b.contains(c),
    ensures
        !(a + b).contains(c),
{
    if (a + b).contains(c) {
        let k = choose|k: int| 0 <= k < (a + b).len() && (a + b)[k] == c;
        if k < a.len() {
            assert(a[k] == c);
            assert(a.contains(c));
        } else {
            assert(b[k - a.len()] == c);
            assert(b.contains(c));
        }
    }
}

proof fn lemma_single_not_contains(x: char, c: char)
    requires
        x != c,
    ensures
        !seq![x].contains(c),
{
    if seq![x].contains(c) {
        let k = choose|k: int| 0 <= k < 1 && seq![x][k] == c;
        assert(seq![x][k] == x);
    }
}

/// The bindings' text read from the front: the first binding, then `|` and
/// the text of the others.
proof fn lemma_encode_vars_first(vars: Seq<(Seq<char>, TypeRefModel)>)
    requires
        vars.len() > 1,
    ensures
        encode_vars(vars) == encode_pair(vars[0]) + seq!['|'] + encode_vars(vars.drop_first()),
    decreases vars.len(),
{
    let rest = vars.drop_first();
    if vars.len() == 2 {
        assert(vars.drop_last().len() == 1);
        assert(vars.drop_last()[0] == vars[0]);
        assert(rest.len() == 1);
        assert(rest[0] == vars.last());
        assert(encode_vars(vars.drop_last()) == encode_pair(vars[0]));
        assert(encode_vars(rest) == encode_pair(vars.last()));
        assert(encode_vars(vars) == encode_vars(vars.drop_last()) + seq!['|'] + encode_pair(
            vars.last(),
        ));
    } else {
        lemma_encode_vars_first(vars.drop_last());
        assert(vars.drop_last().drop_first() =~= rest.drop_last());
        assert(vars.drop_last()[0] == vars[0]);
        assert(rest.last() == vars.last());
        assert(encode_vars(rest) == encode_vars(rest.drop_last()) + seq!['|'] + encode_pair(
            rest.last(),
        ));
        assert(encode_vars(vars) == encode_vars(vars.drop_last()) + seq!['|'] + encode_pair(
            vars.last(),
        ));
        assert(encode_vars(vars) =~= encode_pair(vars[0]) + seq!['|'] + encode_vars(rest));
    }
}

/// A nested reference's text holds no `|`.
proof fn lemma_nested_no_bar(t: TypeRefModel)
    requires
        encodable(t, true),
    ensures
        !encode_type(t).contains('|'),
    decreases t,
{
    lemma_single_not_contains('[', '|');
    lemma_single_not_contains(']', '|');
    lemma_single_not_contains(':', '|');
    match t {
        TypeRefModel::Single { assem, ty } => {
            lemma_not_contains_concat(seq!['['], assem, '|');
            lemma_not_contains_concat(seq!['['] + assem, seq![']'], '|');
            lemma_not_contains_concat(seq!['['] + assem + seq![']'], ty, '|');
        },
        TypeRefModel::Generic(_) => {},
        TypeRefModel::WithGeneric { assem, ty, vars } => {
            let p = vars[0];
            assert(decreases_to!(vars => vars[0]));
            lemma_nested_no_bar(p.1);
            lemma_not_contains_concat(p.0, seq![':'], '|');
            lemma_not_contains_concat(p.0 + seq![':'], encode_type(p.1), '|');
            let head = seq!['['] + assem + seq![']'] + ty + seq!['['];
            lemma_not_contains_concat(seq!['['], assem, '|');
            lemma_not_contains_concat(seq!['['] + assem, seq![']'], '|');
            lemma_not_contains_concat(seq!['['] + assem + seq![']'], ty, '|');
            lemma_not_contains_concat(seq!['['] + assem + seq![']'] + ty, seq!['['], '|');
            lemma_not_contains_concat(head, encode_pair(p), '|');
            lemma_not_contains_concat(head + encode_pair(p), seq![']'], '|');
        },
    }
}

/// The first `]` of `[assem]tail` closes the assembly name.
proof fn lemma_split_assembly(assem: Seq<char>, tail: Seq<char>)
    requires
        !assem.contains(']'),
    ensures
        find(seq!['['] + assem + seq![']'] + tail, ']') == assem.len() + 1,
        (seq!['['] + assem + seq![']'] + tail).subrange(1, assem.len() + 1 as int) =~= assem,
        (seq!['['] + assem + seq![']'] + tail).subrange(
            assem.len() + 2 as int,
            (seq!['['] + assem + seq![']'] + tail).len() as int,
        ) =~= tail,
{
    lemma_single_not_contains('[', ']');
    lemma_not_contains_concat(seq!['['], assem, ']');
    assert(seq!['['] + assem + seq![']'] + tail =~= (seq!['['] + assem) + (seq![']'] + tail));
    lemma_find_after(seq!['['] + assem, seq![']'] + tail, ']');
}

/// Parsing the text of bindings, on top of bindings with other names, adds
/// them in order.
proof fn lemma_vars_round_trip(
    vars: Seq<(Seq<char>, TypeRefModel)>,
    acc: Seq<(Seq<char>, TypeRefModel)>,
)
    requires
        vars.len() > 0,
        keys_unique(acc + vars),
        forall|i: int|
            0 <= i < vars.len() ==> {
                &&& !(#[trigger] vars[i]).0.contains(':')
                &&& !vars[i].0.contains('|')
                &&& encodable(vars[i].1, true)
            },
    ensures
        parse_vars(encode_vars(vars), acc) == Some(acc + vars),
    decreases vars, 0nat,
{
    let p = vars[0];
    let k = p.0;
    let v = p.1;
    assert(decreases_to!(vars => vars[0]));
    assert(vars[0] == p);
    lemma_type_round_trip(v, true);
    lemma_nested_no_bar(v);
    lemma_single_not_contains(':', '|');
    lemma_not_contains_concat(k, seq![':'], '|');
    lemma_not_contains_concat(k + seq![':'], encode_type(v), '|');
    let pt = encode_pair(p);
    assert(pt =~= k + (seq![':'] + encode_type(v)));
    lemma_find_after(k, seq![':'] + encode_type(v), ':');
    assert(pt.subrange(0, k.len() as int) =~= k);
    assert(pt.subrange(k.len() + 1 as int, pt.len() as int) =~= encode_type(v));
    assert(!(exists|i: int| 0 <= i < acc.len() && #[trigger] acc[i].0 == k)) by {
        if exists|i: int| 0 <= i < acc.len() && #[trigger] acc[i].0 == k {
            let i = choose|i: int| 0 <= i < acc.len() && #[trigger] acc[i].0 == k;
            assert((acc + vars)[i].0 == (acc + vars)[acc.len() as int].0);
        }
    }
    assert(insert_entry(acc, k, v) == acc.push((k, v)));
    let inner = encode_vars(vars);
    if vars.len() == 1 {
        assert(inner == pt);
        lemma_find_none(pt, '|');
        assert(pt.subrange(0, pt.len() as int) =~= pt);
        assert(acc + vars =~= acc.push(p));
    } else {
        let rest = vars.drop_first();
        lemma_encode_vars_first(vars);
        assert(inner =~= pt + (seq!['|'] + encode_vars(rest)));
        lemma_find_after(pt, seq!['|'] + encode_vars(rest), '|');
        assert(inner.subrange(0, pt.len() as int) =~= pt);
        assert(inner.subrange(pt.len() + 1 as int, inner.len() as int) =~= encode_vars(rest));
        assert(acc.push(p) + rest =~= acc + vars);
        assert forall|i: int| 0 <= i < rest.len() implies {
            &&& !(#[trigger] rest[i]).0.contains(':')
            &&& !rest[i].0.contains('|')
            &&& encodable(rest[i].1, true)
        } by {
            assert(rest[i] == vars[i + 1]);
        }
        assert(decreases_to!(vars => rest));
        lemma_vars_round_trip(rest, acc.push(p));
    }
}

/// Parsing the canonical text of an encodable reference gives it back.
proof fn lemma_type_round_trip(t: TypeRefModel, nested: bool)
    requires
        encodable(t, nested),
    ensures
        parse_type(encode_type(t)) == Some(t),
    decreases t, 1nat,
{
    match t {
        TypeRefModel::Single { assem, ty } => {
            lemma_split_assembly(assem, ty);
            lemma_find_none(ty, '[');
        },
        TypeRefModel::Generic(_) => {},
        TypeRefModel::WithGeneric { assem, ty, vars } => {
            let e = encode_vars(vars);
            let tail = ty + seq!['['] + e + seq![']'];
            let s = encode_type(t);
            assert(s =~= seq!['['] + assem + seq![']'] + tail);
            lemma_split_assembly(assem, tail);
            assert(tail =~= ty + (seq!['['] + e + seq![']']));
            lemma_find_after(ty, seq!['['] + e + seq![']'], '[');
            assert(tail.subrange(0, ty.len() as int) =~= ty);
            assert(tail.subrange(ty.len() + 1 as int, tail.len() - 1 as int) =~= e);
            assert(Seq::<(Seq<char>, TypeRefModel)>::empty() + vars =~= vars);
            lemma_vars_round_trip(vars, Seq::empty());
        },
    }
}

/// Round trip of the canonical text: for every type reference whose names
/// keep clear of the delimiters (see `encodable`), parsing its text gives the
/// same reference back.
pub proof fn lemma_type_parse_encode(t: TypeRefModel)
    requires
        encodable(t, false),
    ensures
        parse_type(encode_type(t)) == Some(t),
{
    lemma_type_round_trip(t, false);
}

/// A generic placeholder is written without the `@` that the parser asks
/// for, so its text never parses back to it; with the `@` in front it does.
pub proof fn lemma_generic_asymmetry(name: Seq<char>)
    ensures
        parse_type(encode_type(TypeRefModel::Generic(name))) != Some(TypeRefModel::Generic(name)),
        parse_type(seq!['@'] + name) == Some(TypeRefModel::Generic(name)),
{
    assert((seq!['@'] + name).drop_first() =~= name);
    if name.len() > 0 && name[0] == '@' {
        assert(name.drop_first().len() != name.len());
    }
}

/// Equal references hash alike.
pub proof fn lemma_hash_consistent(a: TypeRefModel, b: TypeRefModel)
    requires
        a == b,
    ensures
        DefaultHasher::spec_finish(hash_writes(a)) == DefaultHasher::spec_finish(hash_writes(b)),
{
}

/// References of different shapes start their hash input with different tags.
pub proof fn lemma_hash_shape_tag(a: TypeRefModel, b: TypeRefModel)
    requires
        a is Single && !(b is Single) || a is Generic && !(b is Generic) || a is WithGeneric
            && !(b is WithGeneric),
    ensures
        hash_writes(a)[0] != hash_writes(b)[0],
{
    let ta: u8 = if a is Single {
        0
    } else if a is Generic {
        1
    } else {
        2
    };
    let tb: u8 = if b is Single {
        0
    } else if b is Generic {
        1
    } else {
        2
    };
    assert(hash_writes(a)[0] == seq![ta]);
    assert(hash_writes(b)[0] == seq![tb]);
    assert(seq![ta][0] != seq![tb][0]);
}

/// A signature `name(...)` with no line break is its own canonical text, and
/// parses back to itself.
pub proof fn lemma_method_single_parse_encode(sig: Seq<char>)
    requires
        !sig.contains('\n'),
        sig.contains('('),
        sig.len() > 0,
        sig.last() == ')',
    ensures
        encode_method(MethodRefModel::Single(sig)) == sig,
        parse_method(sig) == Ok::<MethodRefModel, ParseFailure>(MethodRefModel::Single(sig)),
{
    lemma_find(sig, '(');
    let k = choose|k: int| 0 <= k < sig.len() && sig[k] == '(';
    assert(find(sig, '(') <= k);
}

/// No `)` in `x` is directly followed by `[`.
pub open spec fn no_close_open(x: Seq<char>) -> bool {
    forall|j: int| 0 <= j < x.len() - 1 ==> !(x[j] == ')' && #[trigger] x[j + 1] == '[')
}

/// The method references whose canonical text parses back to them: a
/// signature with a `(`, ending in `)`, with no line break, and bindings that
/// the type grammar carries back (see `encodable`), whose text has no line
/// break and no `)` directly followed by `[`.
pub open spec fn method_encodable(m: MethodRefModel) -> bool {
    match m {
        MethodRefModel::Single(sig) => {
            &&& !sig.contains('\n')
            &&& sig.contains('(')
            &&& sig.len() > 0
            &&& sig.last() == ')'
        },
        MethodRefModel::WithGeneric(sig, vars) => {
            &&& !sig.contains('\n')
            &&& sig.contains('(')
            &&& sig.len() > 0
            &&& sig.last() == ')'
            &&& vars.len() > 0
            &&& keys_unique(vars)
            &&& forall|i: int|
                0 <= i < vars.len() ==> {
                    &&& !(#[trigger] vars[i]).0.contains(':')
                    &&& !vars[i].0.contains('|')
                    &&& encodable(vars[i].1, true)
                }
            &&& !encode_vars(vars).contains('\n')
            &&& no_close_open(encode_vars(vars))
        },
    }
}

/// Where the bindings parse, the method grammar reads them alike.
proof fn lemma_method_vars_agree(
    s: Seq<char>,
    inner: Seq<char>,
    acc: Seq<(Seq<char>, TypeRefModel)>,
)
    requires
        parse_vars(inner, acc) is Some,
    ensures
        parse_method_vars(s, inner, acc) == Ok::<_, ParseFailure>(parse_vars(inner, acc)->0),
    decreases inner.len(),
{
    lemma_find(inner, '|');
    let p = find(inner, '|');
    let seg = inner.subrange(0, p as int);
    let c = find(seg, ':');
    if c < seg.len() {
        match parse_type(seg.subrange(c + 1, seg.len() as int)) {
            Some(v) => {
                if p < inner.len() {
                    lemma_method_vars_agree(
                        s,
                        inner.subrange(p + 1, inner.len() as int),
                        insert_entry(acc, seg.subrange(0, c as int), v),
                    );
                }
            },
            None => {},
        }
    }
}

/// The signature search stops at the last `)[` at or below `hi`.
proof fn lemma_signature_end_at(s: Seq<char>, lo: int, hi: int, e: int)
    requires
        lo + 2 <= e <= hi < s.len(),
        s[e - 1] == ')',
        s[e] == '[',
        forall|k: int| e < k <= hi ==> !(s[k - 1] == ')' && #[trigger] s[k] == '['),
    ensures
        signature_end(s, lo, hi) == Some(e),
    decreases hi - e,
{
    if hi > e {
        lemma_signature_end_at(s, lo, hi - 1, e);
    }
}

/// Round trip of method references: the canonical text of every method
/// reference that `method_encodable` admits parses back to it.
pub proof fn lemma_method_parse_encode(m: MethodRefModel)
    requires
        method_encodable(m),
    ensures
        parse_method(encode_method(m)) == Ok::<MethodRefModel, ParseFailure>(m),
{
    match m {
        MethodRefModel::Single(sig) => {
            lemma_method_single_parse_encode(sig);
        },
        MethodRefModel::WithGeneric(sig, vars) => {
            let e = encode_vars(vars);
            let tail = seq!['['] + e + seq![']'];
            let s = encode_method(m);
            assert(s =~= sig + tail);
            // the first `(` lies in the signature
            lemma_find(sig, '(');
            let q = choose|k: int| 0 <= k < sig.len() && sig[k] == '(';
            assert(find(sig, '(') <= q);
            let p = find(sig, '(');
            assert forall|k: int| 0 <= k < p implies s[k] != '(' by {
                assert(s[k] == sig[k]);
            }
            lemma_find_at(s, '(', p);
            // no line break
            lemma_single_not_contains('[', '\n');
            lemma_single_not_contains(']', '\n');
            lemma_not_contains_concat(seq!['['], e, '\n');
            lemma_not_contains_concat(seq!['['] + e, seq![']'], '\n');
            lemma_not_contains_concat(sig, tail, '\n');
            // the signature ends where the bindings' group begins
            assert(p < sig.len() - 1) by {
                assert(sig[p] == '(');
            }
            let n = s.len() as int;
            assert forall|k: int| sig.len() < k <= n - 1 implies !(s[k - 1] == ')' && #[trigger] s[k]
                == '[') by {
                if k == sig.len() + 1 {
                    assert(s[k - 1] == '[');
                } else if k == n - 1 {
                    assert(s[k] == ']');
                } else {
                    let j = k - sig.len() - 2;
                    assert(s[k - 1] == e[j]);
                    assert(s[k] == e[j + 1]);
                }
            }
            lemma_signature_end_at(s, p, n - 1, sig.len() as int);
            assert(s.subrange(0, sig.len() as int) =~= sig);
            assert(s.subrange(sig.len() + 1 as int, n - 1) =~= e);
            // the bindings
            assert(Seq::<(Seq<char>, TypeRefModel)>::empty() + vars =~= vars);
            lemma_vars_round_trip(vars, Seq::empty());
            lemma_method_vars_agree(s, e, Seq::empty());
        },
    }
}

/// Binding a name keeps the names distinct, so every map built by `insert`
/// from an empty one has distinct names.
pub proof fn lemma_insert_keeps_keys_unique(
    vars: Seq<(Seq<char>, TypeRefModel)>,
    k: Seq<char>,
    v: TypeRefModel,
)
    requires
        keys_unique(vars),
    ensures
        keys_unique(insert_entry(vars, k, v)),
{
    let r = insert_entry(vars, k, v);
    if exists|i: int| 0 <= i < vars.len() && #[trigger] vars[i].0 == k {
        let i = choose|i: int| 0 <= i < vars.len() && #[trigger] vars[i].0 == k;
        assert forall|a: int, b: int|
            0 <= a < r.len() && 0 <= b < r.len() && a != b implies r[a].0 != r[b].0 by {
            assert(r[a].0 == vars[a].0);
            assert(r[b].0 == vars[b].0);
        }
    } else {
        assert forall|a: int, b: int|
            0 <= a < r.len() && 0 <= b < r.len() && a != b implies r[a].0 != r[b].0 by {
            if a < vars.len() && b < vars.len() {
            } else if a < vars.len() {
                assert(vars[a].0 != k);
            } else {
                assert(vars[b].0 != k);
            }
        }
    }
}

} // verus!
