//! Typing of `{...}` literals: arrays, maps and record constructors.
use vstd::prelude::*;
use crate::ast::{spec_exp_loc, Exp, Field, FieldName};
use crate::checker::exp::{exp_typing, written_before, init_typing, is_field_named, lemma_exp_typing_frame, strip_option};
use crate::checker::names::{spec_type_name, type_name_of};
use crate::checker::rules::spec_strip_option;
use crate::checker::state::Checker;
use crate::checker::typed::{TypedExp, TypedExpKind};
use crate::checker::verdict::{accept, errors_view};
use crate::checker::symtab::SymTab;
use crate::named::{contains_str, find_named, has_name, lookup_named};
use crate::text::{cat, cat3, cat5};
use crate::types::{compatible_spec, copy_fields, field_models, Type, TypeModel};

verus! {

broadcast use vstd::std_specs::vec::axiom_vec_decreases_to_view;

/// The fields of an init list.
pub open spec fn init_fields(exp: Exp) -> Seq<Field> {
    match exp {
        Exp::ExpInitList { fields, .. } => fields@,
        _ => Seq::empty(),
    }
}

/// A checked array literal: one element per field, each compatible with
/// the element type (the context's, or else the first element's).
pub open spec fn array_lit_typing(exp: Exp, econtext: Option<TypeModel>, te: TypedExp) -> bool {
    &&& te.loc == spec_exp_loc(exp)
    &&& match te.ty.model() {
        TypeModel::Array { elem } => {
            &&& (econtext matches Some(c) ==> *elem == c)
            &&& match te.kind {
                TypedExpKind::ArrayLit(es) => es@.len() == init_fields(exp).len() && forall|i: int|
                    0 <= i < es@.len() ==> compatible_spec(*elem, #[trigger] es@[i].ty.model()),
                _ => false,
            }
        },
        _ => false,
    }
}

/// A checked map literal: one entry per field, keys and values compatible
/// with the key and value types (the context's, or else the first entry's).
pub open spec fn map_lit_typing(
    exp: Exp,
    kcontext: Option<TypeModel>,
    vcontext: Option<TypeModel>,
    te: TypedExp,
) -> bool {
    &&& te.loc == spec_exp_loc(exp)
    &&& match te.ty.model() {
        TypeModel::Dict { keys, values } => {
            &&& (kcontext matches Some(c) ==> *keys == c)
            &&& (vcontext matches Some(c) ==> *values == c)
            &&& match te.kind {
                TypedExpKind::MapLit(es) => es@.len() == init_fields(exp).len() && forall|i: int|
                    0 <= i < es@.len() ==> compatible_spec(*keys, (#[trigger] es@[i]).0.ty.model())
                        && compatible_spec(*values, es@[i].1.ty.model()),
                _ => false,
            }
        },
        _ => false,
    }
}

/// A checked record constructor: the record's type, and one value per
/// declared field, in declaration order, each compatible with its field.
pub open spec fn record_lit_typing(exp: Exp, rname: Seq<char>, rfields: Seq<(String, Type)>, te: TypedExp) -> bool {
    &&& te.loc == spec_exp_loc(exp)
    &&& te.ty.model() == (TypeModel::Record { name: rname, fields: field_models(rfields) })
    &&& match te.kind {
        TypedExpKind::RecordLit { ty_name, fields } => {
            &&& ty_name@ == rname
            &&& fields@.len() == rfields.len()
            &&& forall|i: int|
                0 <= i < fields@.len() ==> (#[trigger] fields@[i]).0@ == rfields[i].0@ && compatible_spec(
                    rfields[i].1.model(),
                    fields@[i].1.ty.model(),
                )
        },
        _ => false,
    }
}

/// Each filled slot is the typed form of every written field of its name.
pub open spec fn slots_typed(
    c: Checker,
    fields: Seq<Field>,
    rfields: Seq<(String, Type)>,
    slots: Seq<Option<TypedExp>>,
) -> bool {
    forall|k: int, j: int|
        0 <= k < slots.len() && 0 <= j < fields.len() && (#[trigger] slots[k]) is Some && is_field_named(
            #[trigger] fields[j],
            rfields[k].0@,
        ) ==> exp_typing(c, fields[j].exp, slots[k]->0)
}

/// Some entry of `seen` is `name`.
pub open spec fn seen_has_name(seen: Seq<String>, name: Seq<char>) -> bool {
    exists|m: int| 0 <= m < seen.len() && seen[m]@ == name
}

/// The name of a field written `name = ...`.
pub open spec fn field_name_of(f: Field) -> Option<Seq<char>> {
    match f.name {
        FieldName::Name(n) => Some(n@),
        _ => None,
    }
}

/// A record literal that the checker accepts for record fields `rfields`
/// (distinct names): every field is written `name = value` with a name of
/// the record, once, and a value accepted in scopes `st` that fits the
/// field's type; and every field of the record is written.
pub open spec fn record_lit_accepted(st: SymTab, fields: Seq<Field>, rfields: Seq<(String, Type)>) -> bool {
    &&& forall|a: int, b: int| 0 <= a < b < rfields.len() ==> rfields[a].0@ != rfields[b].0@
    &&& forall|j: int|
        0 <= j < fields.len() ==> (field_name_of(#[trigger] fields[j]) matches Some(n) && has_name(rfields, n) && (accept(
            st,
            fields[j].exp,
        ) matches Some(t) && compatible_spec(lookup_named(rfields, n)->0.model(), t)))
    &&& forall|a: int, b: int| 0 <= a < b < fields.len() ==> field_name_of(fields[a]) != field_name_of(fields[b])
    &&& forall|k: int|
        0 <= k < rfields.len() ==> exists|j: int| 0 <= j < fields.len() && field_name_of(fields[j]) == Some((#[trigger] rfields[k]).0@)
}

/// `f` is written `name = ...` with a name in `seen`.
pub open spec fn named_in(f: Field, seen: Seq<String>) -> bool {
    match f.name {
        FieldName::Name(n) => seen_has_name(seen, n@),
        _ => false,
    }
}

impl Checker {
    /// Decides what `{...}` is and types it: the context type (without its
    /// `?` layers) decides when there is one, else the form of the first
    /// field does; an empty `{}` or a record without context cannot be
    /// inferred.
    pub fn check_init_list(&mut self, exp: &Exp, context: Option<&Type>) -> (r: Option<TypedExp>)
        requires
            old(self).wf(),
            exp is ExpInitList,
        ensures
            old(self).exp_step(*final(self)),
            r is None ==> final(self).errors@.len() > old(self).errors@.len(),
            r matches Some(te) ==> te.loc == spec_exp_loc(*exp) && (te.ty.model() is Array
                || te.ty.model() is Dict || te.ty.model() is Record),
            r matches Some(te) ==> init_typing(*old(self), init_fields(*exp), te.kind),
            context matches Some(c) ==> match spec_strip_option(c.model()) {
                TypeModel::Array { elem } => r matches Some(te) ==> array_lit_typing(*exp, Some(*elem), te),
                TypeModel::Dict { keys, values } => r matches Some(te) ==> map_lit_typing(
                    *exp,
                    Some(*keys),
                    Some(*values),
                    te,
                ),
                TypeModel::Record { .. } => true,
                _ => r is None,
            },
            context is None && init_fields(*exp).len() == 0 ==> r is None && errors_view(final(self).errors@)
                == errors_view(old(self).errors@).push(
                ("não é possível inferir o tipo de `{}` vazio; anote o tipo."@, spec_exp_loc(*exp)),
            ),
            context is None && init_fields(*exp).len() > 0 && init_fields(*exp)[0].name is Name ==> r is None
                && errors_view(final(self).errors@) == errors_view(old(self).errors@).push(
                ("não é possível inferir o tipo do record; anote o tipo."@, spec_exp_loc(*exp)),
            ),
            context is Some && !(spec_strip_option(context.unwrap().model()) is Array || spec_strip_option(
                context.unwrap().model(),
            ) is Dict || spec_strip_option(context.unwrap().model()) is Record) ==> r is None && errors_view(
                final(self).errors@,
            ) == errors_view(old(self).errors@).push(
                (
                    "não é possível usar `{...}` onde se espera "@ + spec_type_name(spec_strip_option(context.unwrap().model()))
                        + "."@,
                    spec_exp_loc(*exp),
                ),
            ),
        decreases exp, 2int,
    {
        let (loc, fields) = match exp {
            Exp::ExpInitList { loc, fields } => (*loc, fields),
            _ => {
                proof { assert(false); }
                return None;
            },
        };
        match context {
            Some(c) => {
                let shape = strip_option(c);
                match shape {
                    Type::Array { elem } => self.check_array_lit(exp, Some(&**elem)),
                    Type::Dict { keys, values } => self.check_map_lit(exp, Some(&**keys), Some(&**values)),
                    Type::Record { name, fields: rfields } => self.check_record_lit(exp, name, rfields),
                    other => {
                        let found = type_name_of(other);
                        self.error(loc, cat3("não é possível usar `{...}` onde se espera ", found.as_str(), "."));
                        None
                    },
                }
            },
            None => {
                if fields.len() == 0 {
                    let msg = String::from_str("não é possível inferir o tipo de `{}` vazio; anote o tipo.");
                    proof { reveal_strlit("não é possível inferir o tipo de `{}` vazio; anote o tipo."); }
                    self.error(loc, msg);
                    return None;
                }
                match &fields[0].name {
                    FieldName::Key(_) => self.check_map_lit(exp, None, None),
                    FieldName::Name(_) => {
                        let msg = String::from_str("não é possível inferir o tipo do record; anote o tipo.");
                        proof { reveal_strlit("não é possível inferir o tipo do record; anote o tipo."); }
                        self.error(loc, msg);
                        None
                    },
                    FieldName::Positional => self.check_array_lit(exp, None),
                }
            },
        }
    }

    /// `{1, 2, 3}` as an array.
    #[verifier::loop_isolation(false)]
    pub fn check_array_lit(&mut self, exp: &Exp, econtext: Option<&Type>) -> (r: Option<TypedExp>)
        requires
            old(self).wf(),
            exp is ExpInitList,
        ensures
            old(self).exp_step(*final(self)),
            r is None ==> final(self).errors@.len() > old(self).errors@.len(),
            r matches Some(te) ==> array_lit_typing(
                *exp,
                match econtext {
                    Some(c) => Some(c.model()),
                    None => None,
                },
                te,
            ),
            r matches Some(te) ==> init_typing(*old(self), init_fields(*exp), te.kind),
        decreases exp, 1int,
    {
        let (loc, fields) = match exp {
            Exp::ExpInitList { loc, fields } => (*loc, fields),
            _ => {
                proof { assert(false); }
                return None;
            },
        };
        let mut typed_elems: Vec<TypedExp> = Vec::new();
        let mut ok = true;
        let mut i: usize = 0;
        while i < fields.len()
            invariant
                i <= fields@.len(),
                self.wf(),
                old(self).exp_step(*self),
                ok ==> typed_elems@.len() == i,
                ok ==> forall|j: int| 0 <= j < i ==> exp_typing(*old(self), fields@[j].exp, #[trigger] typed_elems@[j]),
                !ok ==> self.errors@.len() > old(self).errors@.len(),
            decreases fields@.len() - i,
        {
            proof { assert(decreases_to!(fields => fields@[i as int])); }
            let ghost before = *self;
            if !matches!(fields[i].name, FieldName::Positional) {
                self.error(
                    fields[i].loc,
                    String::from_str("campo nomeado não é válido dentro de um literal de array."),
                );
                ok = false;
            } else {
                match self.check_exp(&fields[i].exp, econtext) {
                    Some(typed) => {
                        proof { lemma_exp_typing_frame(before, *old(self), fields@[i as int].exp, typed); }
                        typed_elems.push(typed);
                    },
                    None => ok = false,
                }
            }
            i += 1;
        }
        if !ok {
            return None;
        }
        let elem_ty = match econtext {
            Some(t) => t.copy(),
            None => if typed_elems.len() > 0 {
                typed_elems[0].ty.copy()
            } else {
                Type::Integer
            },
        };
        let mut j: usize = 0;
        while j < typed_elems.len()
            invariant
                j <= typed_elems@.len(),
                self.wf(),
                old(self).exp_step(*self),
                forall|k: int| 0 <= k < j ==> compatible_spec(elem_ty.model(), #[trigger] typed_elems@[k].ty.model()),
            decreases typed_elems@.len() - j,
        {
            if !elem_ty.compatible(&typed_elems[j].ty) {
                let expected = type_name_of(&elem_ty);
                let found = type_name_of(&typed_elems[j].ty);
                let msg = cat5(
                    "elemento do array incompatível: esperado ",
                    expected.as_str(),
                    ", encontrado ",
                    found.as_str(),
                    ".",
                );
                self.error(typed_elems[j].loc, msg);
                return None;
            }
            j += 1;
        }
        Some(TypedExp { loc, ty: Type::Array { elem: Box::new(elem_ty) }, kind: TypedExpKind::ArrayLit(typed_elems) })
    }

    /// `{[k] = v, ...}` as a map.
    #[verifier::loop_isolation(false)]
    pub fn check_map_lit(&mut self, exp: &Exp, kcontext: Option<&Type>, vcontext: Option<&Type>) -> (r: Option<TypedExp>)
        requires
            old(self).wf(),
            exp is ExpInitList,
        ensures
            old(self).exp_step(*final(self)),
            r is None ==> final(self).errors@.len() > old(self).errors@.len(),
            r matches Some(te) ==> map_lit_typing(
                *exp,
                match kcontext {
                    Some(c) => Some(c.model()),
                    None => None,
                },
                match vcontext {
                    Some(c) => Some(c.model()),
                    None => None,
                },
                te,
            ),
            r matches Some(te) ==> init_typing(*old(self), init_fields(*exp), te.kind),
        decreases exp, 1int,
    {
        let (loc, fields) = match exp {
            Exp::ExpInitList { loc, fields } => (*loc, fields),
            _ => {
                proof { assert(false); }
                return None;
            },
        };
        let mut entries: Vec<(TypedExp, TypedExp)> = Vec::new();
        let mut ok = true;
        let mut i: usize = 0;
        while i < fields.len()
            invariant
                i <= fields@.len(),
                self.wf(),
                old(self).exp_step(*self),
                ok ==> entries@.len() == i,
                ok ==> forall|j: int| 0 <= j < i ==> exp_typing(*old(self), fields@[j].exp, (#[trigger] entries@[j]).1)
                    && match fields@[j].name {
                    FieldName::Key(k) => exp_typing(*old(self), *k, entries@[j].0),
                    _ => false,
                },
                !ok ==> self.errors@.len() > old(self).errors@.len(),
            decreases fields@.len() - i,
        {
            proof { assert(decreases_to!(fields => fields@[i as int])); }
            match &fields[i].name {
                FieldName::Key(key_exp) => {
                    let ghost s0 = *self;
                    let typed_key = self.check_exp(&**key_exp, kcontext);
                    let ghost s1 = *self;
                    let typed_value = self.check_exp(&fields[i].exp, vcontext);
                    match typed_key {
                        Some(k) => match typed_value {
                            Some(v) => {
                                proof {
                                    lemma_exp_typing_frame(s0, *old(self), **key_exp, k);
                                    lemma_exp_typing_frame(s1, *old(self), fields@[i as int].exp, v);
                                }
                                let ghost pair = (k, v);
                                let ghost prev = entries@;
                                entries.push((k, v));
                                proof {
                                    if ok {
                                        assert(entries@[i as int] == pair);
                                        assert(fields@[i as int].name == FieldName::Key(*key_exp));
                                        assert forall|j: int| 0 <= j < i + 1 implies exp_typing(
                                            *old(self),
                                            fields@[j].exp,
                                            (#[trigger] entries@[j]).1,
                                        ) && match fields@[j].name {
                                            FieldName::Key(kk) => exp_typing(*old(self), *kk, entries@[j].0),
                                            _ => false,
                                        } by {
                                            if j < i {
                                                assert(entries@[j] == prev[j]);
                                            }
                                        }
                                    }
                                }
                            },
                            None => ok = false,
                        },
                        None => ok = false,
                    }
                },
                _ => {
                    self.error(
                        fields[i].loc,
                        String::from_str(
                            "campo posicional ou nomeado não é válido dentro de um literal de map; use `[chave] = valor`.",
                        ),
                    );
                    ok = false;
                },
            }
            i += 1;
        }
        if !ok {
            return None;
        }
        let key_ty = match kcontext {
            Some(t) => t.copy(),
            None => if entries.len() > 0 {
                entries[0].0.ty.copy()
            } else {
                Type::Integer
            },
        };
        let value_ty = match vcontext {
            Some(t) => t.copy(),
            None => if entries.len() > 0 {
                entries[0].1.ty.copy()
            } else {
                Type::Integer
            },
        };
        let mut j: usize = 0;
        while j < entries.len()
            invariant
                j <= entries@.len(),
                self.wf(),
                old(self).exp_step(*self),
                forall|k: int|
                    0 <= k < j ==> compatible_spec(key_ty.model(), (#[trigger] entries@[k]).0.ty.model())
                        && compatible_spec(value_ty.model(), entries@[k].1.ty.model()),
            decreases entries@.len() - j,
        {
            if !key_ty.compatible(&entries[j].0.ty) {
                let expected = type_name_of(&key_ty);
                let found = type_name_of(&entries[j].0.ty);
                let msg = cat5("chave de map incompatível: esperado ", expected.as_str(), ", encontrado ", found.as_str(), ".");
                self.error(entries[j].0.loc, msg);
                return None;
            }
            if !value_ty.compatible(&entries[j].1.ty) {
                let expected = type_name_of(&value_ty);
                let found = type_name_of(&entries[j].1.ty);
                let msg = cat5("valor de map incompatível: esperado ", expected.as_str(), ", encontrado ", found.as_str(), ".");
                self.error(entries[j].1.loc, msg);
                return None;
            }
            j += 1;
        }
        Some(
            TypedExp {
                loc,
                ty: Type::Dict { keys: Box::new(key_ty), values: Box::new(value_ty) },
                kind: TypedExpKind::MapLit(entries),
            },
        )
    }

    /// `Nome{x = 1, y = 2}` as a record: every field given once, no
    /// unknown field, no positional or key field.
    #[verifier::loop_isolation(false)]
    #[verifier::rlimit(100)]
    pub fn check_record_lit(&mut self, exp: &Exp, rname: &String, rfields: &Vec<(String, Type)>) -> (r: Option<TypedExp>)
        requires
            old(self).wf(),
            exp is ExpInitList,
        ensures
            old(self).exp_step(*final(self)),
            r is None ==> final(self).errors@.len() > old(self).errors@.len(),
            r matches Some(te) ==> record_lit_typing(*exp, rname@, rfields@, te),
            r matches Some(te) ==> init_typing(*old(self), init_fields(*exp), te.kind),
            record_lit_accepted(old(self).st, init_fields(*exp), rfields@) ==> r is Some && errors_view(
                final(self).errors@,
            ) == errors_view(old(self).errors@),
        decreases exp, 1int,
    {
        let (loc, fields) = match exp {
            Exp::ExpInitList { loc, fields } => (*loc, fields),
            _ => {
                proof { assert(false); }
                return None;
            },
        };
        let mut seen: Vec<String> = Vec::new();
        let mut slots: Vec<Option<TypedExp>> = Vec::new();
        let mut n: usize = 0;
        while n < rfields.len()
            invariant
                n <= rfields@.len(),
                slots@.len() == n,
                forall|k: int| 0 <= k < n ==> (#[trigger] slots@[k]) is None,
            decreases rfields@.len() - n,
        {
            slots.push(None);
            n += 1;
        }
        let mut ok = true;
        let ghost acc = record_lit_accepted(old(self).st, fields@, rfields@);
        let mut i: usize = 0;
        while i < fields.len()
            invariant
                i <= fields@.len(),
                self.wf(),
                old(self).exp_step(*self),
                slots@.len() == rfields@.len(),
                acc == record_lit_accepted(old(self).st, fields@, rfields@),
                acc ==> ok && errors_view(self.errors@) == errors_view(old(self).errors@),
                acc ==> seen@.len() == i && forall|m: int| 0 <= m < i ==> Some((#[trigger] seen@[m])@) == field_name_of(fields@[m]),
                acc ==> forall|k: int|
                    0 <= k < rfields@.len() && (exists|j: int| 0 <= j < i && field_name_of(fields@[j]) == Some((#[trigger] rfields@[k]).0@))
                        ==> slots@[k] is Some,
                forall|k: int|
                    0 <= k < slots@.len() ==> (#[trigger] slots@[k] matches Some(t) ==> compatible_spec(
                        rfields@[k].1.model(),
                        t.ty.model(),
                    )),
                forall|k: int|
                    0 <= k < slots@.len() && (#[trigger] slots@[k]) is Some ==> seen_has_name(seen@, rfields@[k].0@),
                forall|m: int| 0 <= m < seen@.len() ==> written_before(fields@, i as int, (#[trigger] seen@[m])@),
                ok ==> forall|j: int| 0 <= j < i ==> named_in(#[trigger] fields@[j], seen@),
                ok ==> forall|k: int, j: int|
                    0 <= k < slots@.len() && 0 <= j < i && (#[trigger] slots@[k]) is Some && is_field_named(
                        #[trigger] fields@[j],
                        rfields@[k].0@,
                    ) ==> exp_typing(*old(self), fields@[j].exp, slots@[k]->0),
                !ok ==> self.errors@.len() > old(self).errors@.len(),
            decreases fields@.len() - i,
        {
            proof { assert(decreases_to!(fields => fields@[i as int])); }
            let ghost seen_before = seen@;
            let ghost slots_before = slots@;
            let ghost e_before = errors_view(self.errors@);
            let field = &fields[i];
            proof {
                if acc {
                    assert(field_name_of(fields@[i as int]) is Some);
                }
            }
            match &field.name {
                FieldName::Positional => {
                    self.error(
                        field.loc,
                        cat3("record '", rname.as_str(), "' não aceita campo posicional; use `nome = valor`."),
                    );
                    ok = false;
                },
                FieldName::Key(_) => {
                    self.error(
                        field.loc,
                        cat3("record '", rname.as_str(), "' não aceita chave-expressão (`[...] = ...`)."),
                    );
                    ok = false;
                },
                FieldName::Name(fname) => {
                    match find_named(rfields, fname.as_str()) {
                        None => {
                            let msg = cat5("campo '", fname.as_str(), "' não existe no record '", rname.as_str(), "'.");
                            self.error(field.loc, msg);
                            ok = false;
                        },
                        Some(idx) => {
                            proof {
                                if acc {
                                    if exists|k: int| 0 <= k < seen@.len() && seen@[k]@ == fname@ {
                                        let k = choose|k: int| 0 <= k < seen@.len() && seen@[k]@ == fname@;
                                        assert(Some(seen@[k]@) == field_name_of(fields@[k]));
                                        assert(field_name_of(fields@[k]) != field_name_of(fields@[i as int]));
                                    }
                                }
                            }
                            if contains_str(&seen, fname.as_str()) {
                                let msg = cat5(
                                    "campo '",
                                    fname.as_str(),
                                    "' duplicado no construtor de '",
                                    rname.as_str(),
                                    "'.",
                                );
                                self.error(field.loc, msg);
                                ok = false;
                            } else {
                                proof {
                                    assert(rfields@[idx as int].0@ == fname@);
                                    assert(!seen_has_name(seen@, fname@));
                                    assert(slots@[idx as int] is None);
                                }
                                seen.push(fname.clone());
                                proof {
                                    assert(seen@[seen@.len() - 1]@ == fname@);
                                    assert forall|m: int| 0 <= m < seen_before.len() implies seen@[m] == seen_before[m] by {}
                                }
                                match find_named(&self.field_def_locs, rname.as_str()) {
                                    Some(ri) => match find_named(&self.field_def_locs[ri].1, fname.as_str()) {
                                        Some(fi) => {
                                            let def_loc = self.field_def_locs[ri].1[fi].1;
                                            self.record_use(field.loc, def_loc, fname.as_str(), &rfields[idx].1);
                                        },
                                        None => {},
                                    },
                                    None => {},
                                }
                                let ghost before = *self;
                                proof {
                                    if acc {
                                        assert(errors_view(self.errors@) =~= e_before);
                                        assert(accept(old(self).st, fields@[i as int].exp) is Some);
                                        assert(lookup_named(rfields@, fname@) == Some(rfields@[idx as int].1));
                                    }
                                }
                                match self.check_exp(&field.exp, Some(&rfields[idx].1)) {
                                    Some(typed) => {
                                        proof { lemma_exp_typing_frame(before, *old(self), field.exp, typed); }
                                        if !rfields[idx].1.compatible(&typed.ty) {
                                            let expected = type_name_of(&rfields[idx].1);
                                            let found = type_name_of(&typed.ty);
                                            let mut msg = cat3("campo '", fname.as_str(), "' incompatível: esperado ");
                                            msg.append(expected.as_str());
                                            msg.append(", encontrado ");
                                            msg.append(found.as_str());
                                            msg.append(".");
                                            self.error(typed.loc, msg);
                                            ok = false;
                                        } else {
                                            slots.set(idx, Some(typed));
                                        }
                                        proof {
                                            if acc {
                                                assert(errors_view(self.errors@) =~= e_before);
                                                assert forall|k: int|
                                                    0 <= k < rfields@.len() && (#[trigger] rfields@[k]).0@ == field_name_of(fields@[i as int])->0
                                                        implies slots@[k] is Some by {
                                                    if k != idx {
                                                        if k < idx {
                                                            assert(rfields@[k].0@ != rfields@[idx as int].0@);
                                                        } else {
                                                            assert(rfields@[idx as int].0@ != rfields@[k].0@);
                                                        }
                                                    }
                                                }
                                            }
                                        }
                                    },
                                    None => ok = false,
                                }
                            }
                        },
                    }
                },
            }
            proof {
                if acc {
                    assert forall|k: int|
                        0 <= k < rfields@.len() && (exists|j: int| 0 <= j < i + 1 && field_name_of(fields@[j]) == Some((#[trigger] rfields@[k]).0@))
                            implies slots@[k] is Some by {
                        let j = choose|j: int| 0 <= j < i + 1 && field_name_of(fields@[j]) == Some(rfields@[k].0@);
                        if j < i {
                            assert(slots_before[k] is Some);
                        } else {
                            assert(rfields@[k].0@ == field_name_of(fields@[i as int])->0);
                        }
                    }
                    assert forall|m: int| 0 <= m < i + 1 implies Some((#[trigger] seen@[m])@) == field_name_of(fields@[m]) by {
                        if m < i {
                            assert(seen@[m] == seen_before[m]);
                        }
                    }
                }
            }
            i += 1;
        }
        let ghost filled = slots@;
        proof {
            if acc {
                assert forall|k: int| 0 <= k < rfields@.len() implies (#[trigger] filled[k]) is Some by {
                    let jj = choose|jj: int| 0 <= jj < fields@.len() && field_name_of(fields@[jj]) == Some(rfields@[k].0@);
                }
            }
            if ok {
                assert(slots_typed(*old(self), fields@, rfields@, filled));
            }
        }
        let mut j: usize = 0;
        while j < rfields.len()
            invariant
                j <= rfields@.len(),
                self.wf(),
                old(self).exp_step(*self),
                slots@ == filled,
                ok ==> slots_typed(*old(self), fields@, rfields@, filled),
                forall|m: int| 0 <= m < seen@.len() ==> written_before(fields@, fields@.len() as int, (#[trigger] seen@[m])@),
                ok ==> forall|k: int| 0 <= k < j ==> seen_has_name(seen@, (#[trigger] rfields@[k]).0@),
                !ok ==> self.errors@.len() > old(self).errors@.len(),
                acc == record_lit_accepted(old(self).st, fields@, rfields@),
                acc ==> ok && errors_view(self.errors@) == errors_view(old(self).errors@),
                acc ==> seen@.len() == fields@.len() && forall|m: int| 0 <= m < fields@.len() ==> Some((#[trigger] seen@[m])@) == field_name_of(fields@[m]),
                acc ==> forall|k: int| 0 <= k < rfields@.len() ==> (#[trigger] filled[k]) is Some,
            decreases rfields@.len() - j,
        {
            proof {
                if acc {
                    let jj = choose|jj: int| 0 <= jj < fields@.len() && field_name_of(fields@[jj]) == Some(rfields@[j as int].0@);
                    assert(Some(seen@[jj]@) == field_name_of(fields@[jj]));
                }
            }
            if !contains_str(&seen, rfields[j].0.as_str()) {
                let msg = cat5("falta o campo '", rfields[j].0.as_str(), "' no construtor de '", rname.as_str(), "'.");
                self.error(loc, msg);
                ok = false;
            }
            j += 1;
        }
        if !ok {
            return None;
        }
        proof {
            assert forall|k: int| 0 <= k < rfields@.len() implies written_before(
                fields@,
                fields@.len() as int,
                (#[trigger] rfields@[k]).0@,
            ) by {
                assert(seen_has_name(seen@, rfields@[k].0@));
                let m = choose|m: int| 0 <= m < seen@.len() && seen@[m]@ == rfields@[k].0@;
                assert(written_before(fields@, fields@.len() as int, seen@[m]@));
            }
        }
        let ghost all_slots = slots@;
        proof {
            if acc {
                assert(all_slots == filled);
            }
        }
        let mut ordered: Vec<(String, TypedExp)> = Vec::new();
        let mut j: usize = 0;
        while j < rfields.len()
            invariant
                j <= rfields@.len(),
                all_slots.len() == rfields@.len(),
                slots@ == all_slots.subrange(j as int, all_slots.len() as int),
                forall|k: int|
                    0 <= k < all_slots.len() ==> (#[trigger] all_slots[k] matches Some(t) ==> compatible_spec(
                        rfields@[k].1.model(),
                        t.ty.model(),
                    )),
                ordered@.len() == j,
                forall|k: int|
                    0 <= k < j ==> (#[trigger] ordered@[k]).0@ == rfields@[k].0@ && compatible_spec(
                        rfields@[k].1.model(),
                        ordered@[k].1.ty.model(),
                    ) && all_slots[k] == Some(ordered@[k].1),
                slots_typed(*old(self), fields@, rfields@, all_slots),
                forall|k: int| 0 <= k < rfields@.len() ==> written_before(fields@, fields@.len() as int, (#[trigger] rfields@[k]).0@),
                self.wf(),
                old(self).exp_step(*self),
                acc == record_lit_accepted(old(self).st, fields@, rfields@),
                acc ==> errors_view(self.errors@) == errors_view(old(self).errors@),
                acc ==> forall|k: int| 0 <= k < rfields@.len() ==> (#[trigger] all_slots[k]) is Some,
            decreases rfields@.len() - j,
        {
            assert(slots@[0] == all_slots[j as int]);
            match slots.remove(0) {
                Some(typed) => ordered.push((rfields[j].0.clone(), typed)),
                None => {
                    let msg = cat5("falta o campo '", rfields[j].0.as_str(), "' no construtor de '", rname.as_str(), "'.");
                    self.error(loc, msg);
                    return None;
                },
            }
            assert(slots@ =~= all_slots.subrange(j + 1, all_slots.len() as int));
            j += 1;
        }
        let ty = Type::Record { name: rname.clone(), fields: copy_fields(rfields) };
        proof {
            assert forall|k: int, j: int|
                0 <= k < ordered@.len() && 0 <= j < fields@.len() && is_field_named(
                    fields@[j],
                    (#[trigger] ordered@[k]).0@,
                ) implies exp_typing(*old(self), (#[trigger] fields@[j]).exp, ordered@[k].1) by {
                assert(all_slots[k] is Some);
            }
            assert forall|k: int| 0 <= k < ordered@.len() implies written_before(
                fields@,
                fields@.len() as int,
                (#[trigger] ordered@[k]).0@,
            ) by {
                assert(written_before(fields@, fields@.len() as int, rfields@[k].0@));
            }
        }
        Some(TypedExp { loc, ty, kind: TypedExpKind::RecordLit { ty_name: rname.clone(), fields: ordered } })
    }
}

} // verus!
