//! Properties that hold of the completion engine as a whole.
use crate::chain::{chain_items, depth, next_kind, ComponentKey};
use crate::members::{
    constant_items, datatype_items, fields_label, enum_items, field_placeholders, fields_template,
    function_item, function_items, in_module, in_package_of, module_member_items,
    offers_functions, offers_types, placeholder, struct_items, visible,
};
use crate::model::{
    plain, AliasView, ChainCompletionKind, CompletionItemKind, ConstantDef, CursorContext,
    EnumDef, FunctionDef, ItemView, ModuleDefs, ModuleId, ModuleKey, StructDef, Symbols,
    Visibility,
};
use crate::model::{item_labels, names};
use crate::order::{lemma_text_lt_irreflexive, strictly_sorted, text_lt};
use crate::packages::module_defs;
use crate::text::dec_digits;
use crate::use_decl::use_items;
use vstd::prelude::*;

verus! {

/// Completion is a function of its inputs: the same symbol index, cursor and
/// trigger give the same candidates, in the same order.
pub proof fn lemma_completions_deterministic(
    symbols: Symbols,
    cursor: CursorContext,
    triggered: bool,
    first: Seq<ItemView>,
    second: Seq<ItemView>,
)
    requires
        first == chain_items(symbols, cursor, triggered),
        second == chain_items(symbols, cursor, triggered),
    ensures
        first == second,
{
}

/// Import completion is a function of its inputs as well.
pub proof fn lemma_use_completions_deterministic(
    symbols: Symbols,
    cursor: CursorContext,
    first: Seq<ItemView>,
    second: Seq<ItemView>,
)
    requires
        first == use_items(symbols, cursor),
        second == use_items(symbols, cursor),
    ensures
        first == second,
{
}

/// Along a chain the kinds only narrow: a package is followed by a module, a
/// module by a member, and a member by nothing.
pub proof fn lemma_kinds_narrow(symbols: Symbols, info: AliasView, prev: ComponentKey, name: Seq<char>)
    ensures
        next_kind(symbols, info, prev, name) matches Some(k) ==> depth(k) == depth(prev) + 1,
        prev is Package ==> (next_kind(symbols, info, prev, name) matches Some(k) ==> k is Module),
        prev is Module ==> (next_kind(symbols, info, prev, name) matches Some(k) ==> k is Member),
        prev is Member ==> next_kind(symbols, info, prev, name) is None,
{
}

proof fn lemma_function_items(fns: Seq<FunctionDef>, same_module: bool, same_package: bool, inside_use: bool)
    ensures
        forall|i: int|
            0 <= i < function_items(fns, same_module, same_package, inside_use).len() ==> exists|
                j: int,
            |
                0 <= j < fns.len() && visible(fns[j].visibility, same_module, same_package)
                    && #[trigger] function_items(fns, same_module, same_package, inside_use)[i]
                    == function_item(fns[j], fns[j].name@, inside_use),
        forall|j: int|
            0 <= j < fns.len() && visible(fns[j].visibility, same_module, same_package)
                ==> function_items(fns, same_module, same_package, inside_use).contains(
                function_item(fns[j], fns[j].name@, inside_use),
            ),
        forall|i: int|
            0 <= i < function_items(fns, same_module, same_package, inside_use).len()
                ==> function_items(fns, same_module, same_package, inside_use)[i].kind
                is Function,
    decreases fns.len(),
{
    if fns.len() > 0 {
        let rest = fns.drop_last();
        lemma_function_items(rest, same_module, same_package, inside_use);
        let r = function_items(rest, same_module, same_package, inside_use);
        let all = function_items(fns, same_module, same_package, inside_use);
        assert forall|i: int| 0 <= i < all.len() implies exists|j: int|
            0 <= j < fns.len() && visible(fns[j].visibility, same_module, same_package) && #[trigger] all[i]
                == function_item(fns[j], fns[j].name@, inside_use) by {
            if i < r.len() {
                let j = choose|j: int|
                    0 <= j < rest.len() && visible(rest[j].visibility, same_module, same_package)
                        && r[i] == function_item(rest[j], rest[j].name@, inside_use);
                assert(fns[j] == rest[j]);
            } else {
                assert(all[i] == function_item(fns[fns.len() - 1], fns.last().name@, inside_use));
            }
        }
        assert forall|j: int|
            0 <= j < fns.len() && visible(fns[j].visibility, same_module, same_package) implies all.contains(
            function_item(fns[j], fns[j].name@, inside_use),
        ) by {
            if j < rest.len() {
                assert(rest[j] == fns[j]);
                let k = choose|k: int|
                    0 <= k < r.len() && r[k] == function_item(rest[j], rest[j].name@, inside_use);
                assert(all[k] == r[k]);
            } else {
                assert(all[all.len() - 1] == function_item(fns[j], fns[j].name@, inside_use));
            }
        }
        assert forall|i: int| 0 <= i < all.len() implies all[i].kind is Function by {
            if i < r.len() {
                assert(all[i] == r[i]);
            }
        }
    }
}

proof fn lemma_datatype_kinds(
    cursor_module: Option<ModuleId>,
    defining: ModuleKey,
    name: Seq<char>,
    kind: CompletionItemKind,
    fields: Seq<String>,
    named: bool,
)
    ensures
        forall|i: int|
            0 <= i < datatype_items(cursor_module, defining, name, kind, fields, named).len()
                ==> datatype_items(cursor_module, defining, name, kind, fields, named)[i].kind
                == kind,
{
}

proof fn lemma_struct_items(structs: Seq<StructDef>, cursor_module: Option<ModuleId>, defining: ModuleKey)
    ensures
        forall|i: int|
            0 <= i < struct_items(structs, cursor_module, defining).len() ==> struct_items(
                structs,
                cursor_module,
                defining,
            )[i].kind is Struct,
        !in_module(cursor_module, defining) ==> forall|i: int|
            0 <= i < struct_items(structs, cursor_module, defining).len() ==> struct_items(
                structs,
                cursor_module,
                defining,
            )[i].snippet is None,
    decreases structs.len(),
{
    if structs.len() > 0 {
        let s = structs.last();
        lemma_struct_items(structs.drop_last(), cursor_module, defining);
        lemma_datatype_kinds(
            cursor_module,
            defining,
            s.name@,
            CompletionItemKind::Struct,
            s.fields@,
            !s.positional,
        );
        let r = struct_items(structs.drop_last(), cursor_module, defining);
        let d = datatype_items(
            cursor_module,
            defining,
            s.name@,
            CompletionItemKind::Struct,
            s.fields@,
            !s.positional,
        );
        assert forall|i: int|
            0 <= i < (r + d).len() implies (r + d)[i].kind is Struct && (!in_module(
            cursor_module,
            defining,
        ) ==> (r + d)[i].snippet is None) by {
            if i >= r.len() {
                assert((r + d)[i] == d[i - r.len()]);
            }
        }
    }
}

proof fn lemma_enum_items(enums: Seq<EnumDef>)
    ensures
        forall|i: int| 0 <= i < enum_items(enums).len() ==> enum_items(enums)[i].kind is Enum,
    decreases enums.len(),
{
    if enums.len() > 0 {
        lemma_enum_items(enums.drop_last());
    }
}

proof fn lemma_constant_items(consts: Seq<ConstantDef>)
    ensures
        forall|i: int|
            0 <= i < constant_items(consts).len() ==> constant_items(consts)[i].kind is Constant,
    decreases consts.len(),
{
    if consts.len() > 0 {
        lemma_constant_items(consts.drop_last());
    }
}

/// The functions of module `m` offered to a requester are exactly the ones it
/// may see: from another package only public ones; from another module of
/// the same package also package-visible ones, never module-private ones;
/// from `m` itself all of them.
pub proof fn lemma_visibility_containment(
    symbols: Symbols,
    cursor_module: Option<ModuleId>,
    m: ModuleKey,
    chain_kind: ChainCompletionKind,
    inside_use: bool,
    defs: ModuleDefs,
)
    requires
        module_defs(symbols.modules@, m) == Some(defs),
        offers_functions(chain_kind),
    ensures
        ({
            let offered = module_member_items(symbols, cursor_module, m, chain_kind, inside_use);
            let fns = defs.functions@;
            &&& forall|i: int|
                0 <= i < offered.len() && offered[i].kind is Function ==> exists|j: int|
                    0 <= j < fns.len() && visible(
                        fns[j].visibility,
                        in_module(cursor_module, m),
                        in_package_of(cursor_module, m),
                    ) && offered[i] == function_item(fns[j], fns[j].name@, inside_use)
            &&& forall|j: int|
                0 <= j < fns.len() && visible(
                    fns[j].visibility,
                    in_module(cursor_module, m),
                    in_package_of(cursor_module, m),
                ) ==> offered.contains(function_item(fns[j], fns[j].name@, inside_use))
        }),
        !in_package_of(cursor_module, m) ==> forall|v: Visibility|
            visible(v, in_module(cursor_module, m), in_package_of(cursor_module, m))
                <==> v is Public,
        in_package_of(cursor_module, m) && !in_module(cursor_module, m) ==> forall|v: Visibility|
            visible(v, in_module(cursor_module, m), in_package_of(cursor_module, m))
                <==> !(v is ModulePrivate),
        in_module(cursor_module, m) ==> forall|v: Visibility|
            visible(v, in_module(cursor_module, m), in_package_of(cursor_module, m)),
{
    let sm = in_module(cursor_module, m);
    let sp = in_package_of(cursor_module, m);
    let fns = defs.functions@;
    let f = function_items(fns, sm, sp, inside_use);
    let t = if chain_kind is Type || chain_kind is All {
        struct_items(defs.structs@, cursor_module, defs.ident@) + enum_items(defs.enums@)
    } else {
        Seq::empty()
    };
    let c = if chain_kind is All && sm {
        constant_items(defs.constants@)
    } else {
        Seq::empty()
    };
    let offered = module_member_items(symbols, cursor_module, m, chain_kind, inside_use);
    assert(offered == f + t + c);
    lemma_function_items(fns, sm, sp, inside_use);
    lemma_struct_items(defs.structs@, cursor_module, defs.ident@);
    lemma_enum_items(defs.enums@);
    lemma_constant_items(defs.constants@);
    assert forall|i: int|
        0 <= i < offered.len() && offered[i].kind is Function implies exists|j: int|
        0 <= j < fns.len() && visible(fns[j].visibility, sm, sp) && offered[i] == function_item(
            fns[j],
            fns[j].name@,
            inside_use,
        ) by {
        if i < f.len() {
            assert(offered[i] == f[i]);
        } else if i < f.len() + t.len() {
            assert(offered[i] == t[i - f.len()]);
            if chain_kind is Type || chain_kind is All {
                let s = struct_items(defs.structs@, cursor_module, defs.ident@);
                let k = i - f.len();
                if k >= s.len() {
                    assert(t[k] == enum_items(defs.enums@)[k - s.len()]);
                }
            }
        } else {
            assert(offered[i] == c[i - f.len() - t.len()]);
        }
    }
    assert forall|j: int| 0 <= j < fns.len() && visible(fns[j].visibility, sm, sp) implies offered.contains(
        function_item(fns[j], fns[j].name@, inside_use),
    ) by {
        let k = choose|k: int| 0 <= k < f.len() && f[k] == function_item(fns[j], fns[j].name@, inside_use);
        assert(offered[k] == f[k]);
    }
    if sm {
        assert(sp);
    }
}

/// A struct offered to a requester outside its module has only its bare name,
/// never a snippet; one offered within its module, where it has fields, has
/// its bare name and exactly one snippet, with one placeholder per field.
pub proof fn lemma_snippet_non_leakage(
    cursor_module: Option<ModuleId>,
    defining: ModuleKey,
    name: Seq<char>,
    fields: Seq<String>,
    named: bool,
    structs: Seq<StructDef>,
)
    ensures
        !in_module(cursor_module, defining) ==> datatype_items(
            cursor_module,
            defining,
            name,
            CompletionItemKind::Struct,
            fields,
            named,
        ) == seq![plain(name, CompletionItemKind::Struct)],
        !in_module(cursor_module, defining) ==> forall|i: int|
            0 <= i < struct_items(structs, cursor_module, defining).len() ==> struct_items(
                structs,
                cursor_module,
                defining,
            )[i].snippet is None,
        in_module(cursor_module, defining) && fields.len() > 0 ==> ({
            let offered = datatype_items(
                cursor_module,
                defining,
                name,
                CompletionItemKind::Struct,
                fields,
                named,
            );
            &&& offered.len() == 2
            &&& offered[0] == plain(name, CompletionItemKind::Struct)
            &&& offered[1].snippet == Some(fields_template(name, fields, named))
            &&& field_placeholders(fields, named).len() == fields.len()
            &&& forall|i: int|
                0 <= i < fields.len() ==> field_placeholders(fields, named)[i] == placeholder(
                    (i + 1) as nat,
                    fields[i]@,
                    named,
                )
        }),
{
    lemma_struct_items(structs, cursor_module, defining);
}

/// Whether `s` has no line break.
pub open spec fn single_line(s: Seq<char>) -> bool {
    forall|i: int| 0 <= i < s.len() ==> s[i] != '\n'
}

proof fn lemma_single_line_concat(a: Seq<char>, b: Seq<char>)
    requires
        single_line(a),
        single_line(b),
    ensures
        single_line(a + b),
{
    assert forall|i: int| 0 <= i < (a + b).len() implies (a + b)[i] != '\n' by {
        if i < a.len() {
            assert((a + b)[i] == a[i]);
        } else {
            assert((a + b)[i] == b[i - a.len()]);
        }
    }
}

proof fn lemma_placeholder_single_line(i: nat, field: Seq<char>)
    requires
        1 <= i <= 9,
        single_line(field),
    ensures
        single_line(placeholder(i, field, true)),
{
    reveal_strlit("${");
    reveal_strlit(":");
    reveal_strlit("}");
    assert(dec_digits(i).len() == 1);
    assert(single_line(dec_digits(i)));
    lemma_single_line_concat("${"@, dec_digits(i));
    lemma_single_line_concat("${"@ + dec_digits(i), ":"@);
    lemma_single_line_concat("${"@ + dec_digits(i) + ":"@, field);
    lemma_single_line_concat("${"@ + dec_digits(i) + ":"@ + field, "}"@);
}

/// A literal over named fields stays on one line with two fields and spreads
/// over several lines with three; a datatype without fields gets its bare
/// name alone.
pub proof fn lemma_line_break_threshold(
    cursor_module: Option<ModuleId>,
    defining: ModuleKey,
    name: Seq<char>,
    kind: CompletionItemKind,
    fields: Seq<String>,
    named: bool,
)
    requires
        single_line(name),
        forall|i: int| 0 <= i < fields.len() ==> single_line(#[trigger] fields[i]@),
    ensures
        fields.len() == 2 ==> single_line(fields_template(name, fields, true)),
        fields.len() == 3 ==> !single_line(fields_template(name, fields, true)),
        fields.len() == 0 ==> datatype_items(cursor_module, defining, name, kind, fields, named)
            == seq![plain(name, kind)],
{
    reveal_strlit(", ");
    reveal_strlit(" { ");
    reveal_strlit(" }");
    reveal_strlit(" {\n\t");
    if fields.len() == 2 {
        let ps = field_placeholders(fields, true);
        assert(ps.drop_last().len() == 1);
        assert(ps.drop_last()[0] == ps[0]);
        lemma_placeholder_single_line(1, fields[0]@);
        lemma_placeholder_single_line(2, fields[1]@);
        let list = ps[0] + ", "@ + ps[1];
        assert(crate::members::join(ps.drop_last(), ", "@) == ps[0]);
        assert(ps.last() == ps[1]);
        assert(crate::members::join(ps, ", "@) == list);
        lemma_single_line_concat(ps[0], ", "@);
        lemma_single_line_concat(ps[0] + ", "@, ps[1]);
        lemma_single_line_concat(name, " { "@);
        lemma_single_line_concat(name + " { "@, list);
        lemma_single_line_concat(name + " { "@ + list, " }"@);
    }
    if fields.len() == 3 {
        let t = fields_template(name, fields, true);
        let list = crate::members::join(field_placeholders(fields, true), ",\n\t"@);
        assert(t == name + " {\n\t"@ + list + ",\n}"@);
        assert(t[name.len() + 2int] == '\n');
    }
}


proof fn lemma_function_labels_sorted(
    fns: Seq<FunctionDef>,
    same_module: bool,
    same_package: bool,
    inside_use: bool,
)
    requires
        strictly_sorted(names(fns)),
    ensures
        strictly_sorted(item_labels(function_items(fns, same_module, same_package, inside_use))),
    decreases fns.len(),
{
    if fns.len() > 0 {
        let rest = fns.drop_last();
        assert(strictly_sorted(names(rest))) by {
            assert forall|i: int, j: int| 0 <= i < j < names(rest).len() implies text_lt(
                #[trigger] names(rest)[i],
                #[trigger] names(rest)[j],
            ) by {
                assert(names(rest)[i] == names(fns)[i] && names(rest)[j] == names(fns)[j]);
            }
        }
        lemma_function_labels_sorted(rest, same_module, same_package, inside_use);
        lemma_function_items(rest, same_module, same_package, inside_use);
        let r = function_items(rest, same_module, same_package, inside_use);
        let all = function_items(fns, same_module, same_package, inside_use);
        if visible(fns.last().visibility, same_module, same_package) {
            let l = item_labels(all);
            assert(l =~= item_labels(r).push(fns.last().name@));
            assert forall|i: int, j: int| 0 <= i < j < l.len() implies text_lt(
                #[trigger] l[i],
                #[trigger] l[j],
            ) by {
                if j == l.len() - 1 {
                    let k = choose|k: int|
                        0 <= k < rest.len() && visible(rest[k].visibility, same_module, same_package)
                            && #[trigger] r[i] == function_item(rest[k], rest[k].name@, inside_use);
                    assert(names(fns)[k] == rest[k].name@);
                    assert(names(fns)[fns.len() - 1] == fns.last().name@);
                } else {
                    assert(l[i] == item_labels(r)[i] && l[j] == item_labels(r)[j]);
                }
            }
        }
    }
}

proof fn lemma_enum_labels(enums: Seq<EnumDef>)
    ensures
        item_labels(enum_items(enums)) == names(enums),
    decreases enums.len(),
{
    if enums.len() > 0 {
        lemma_enum_labels(enums.drop_last());
        assert(names(enums) =~= names(enums.drop_last()).push(enums.last().name@));
        assert(item_labels(enum_items(enums)) =~= item_labels(enum_items(enums.drop_last())).push(
            enums.last().name@,
        ));
    } else {
        assert(item_labels(enum_items(enums)) =~= names(enums));
    }
}

proof fn lemma_constant_labels(consts: Seq<ConstantDef>)
    ensures
        item_labels(constant_items(consts)) == names(consts),
    decreases consts.len(),
{
    if consts.len() > 0 {
        lemma_constant_labels(consts.drop_last());
        assert(names(consts) =~= names(consts.drop_last()).push(consts.last().name@));
        assert(item_labels(constant_items(consts)) =~= item_labels(
            constant_items(consts.drop_last()),
        ).push(consts.last().name@));
    } else {
        assert(item_labels(constant_items(consts)) =~= names(consts));
    }
}

/// In a module whose tables are keyed by name, the function, enum and constant
/// candidates each come in name order, each name once.
pub proof fn lemma_members_in_name_order(defs: ModuleDefs, same_module: bool, same_package: bool, inside_use: bool)
    requires
        defs.wf(),
    ensures
        strictly_sorted(
            item_labels(function_items(defs.functions@, same_module, same_package, inside_use)),
        ),
        strictly_sorted(item_labels(enum_items(defs.enums@))),
        strictly_sorted(item_labels(constant_items(defs.constants@))),
{
    lemma_function_labels_sorted(defs.functions@, same_module, same_package, inside_use);
    lemma_enum_labels(defs.enums@);
    lemma_constant_labels(defs.constants@);
}

/// How many struct snippets labelled `label` are among `s`.
pub open spec fn snippet_count(s: Seq<ItemView>, label: Seq<char>) -> nat
    decreases s.len(),
{
    if s.len() == 0 {
        0
    } else {
        snippet_count(s.drop_last(), label) + if s.last().kind is Struct && s.last().snippet is Some
            && s.last().label == label {
            1nat
        } else {
            0nat
        }
    }
}

proof fn lemma_count_append(a: Seq<ItemView>, b: Seq<ItemView>, label: Seq<char>)
    ensures
        snippet_count(a + b, label) == snippet_count(a, label) + snippet_count(b, label),
    decreases b.len(),
{
    if b.len() == 0 {
        assert(a + b =~= a);
    } else {
        lemma_count_append(a, b.drop_last(), label);
        assert((a + b).drop_last() =~= a + b.drop_last());
        assert((a + b).last() == b.last());
    }
}

proof fn lemma_count_none(s: Seq<ItemView>, label: Seq<char>)
    requires
        forall|i: int| 0 <= i < s.len() ==> !(#[trigger] s[i].kind is Struct),
    ensures
        snippet_count(s, label) == 0,
    decreases s.len(),
{
    if s.len() > 0 {
        assert forall|i: int| 0 <= i < s.drop_last().len() implies !(#[trigger] s.drop_last()[i].kind is Struct) by {
            assert(s.drop_last()[i] == s[i]);
        }
        lemma_count_none(s.drop_last(), label);
    }
}

proof fn lemma_label_injective(a: Seq<char>, na: bool, b: Seq<char>, nb: bool)
    requires
        fields_label(a, na) == fields_label(b, nb),
    ensures
        a == b,
{
    reveal_strlit("{..}");
    reveal_strlit("(..)");
    let l = fields_label(a, na);
    assert("{..}"@.len() == 4);
    assert("(..)"@.len() == 4);
    assert(l.len() == a.len() + 4);
    assert(l.len() == b.len() + 4);
    assert forall|i: int| 0 <= i < a.len() implies a[i] == b[i] by {
        assert(l[i] == a[i]);
        assert(l[i] == b[i]);
    }
    assert(a =~= b);
}

proof fn lemma_block_count(
    cursor_module: Option<ModuleId>,
    defining: ModuleKey,
    st: StructDef,
    label: Seq<char>,
)
    ensures
        snippet_count(
            datatype_items(
                cursor_module,
                defining,
                st.name@,
                CompletionItemKind::Struct,
                st.fields@,
                !st.positional,
            ),
            label,
        ) == if in_module(cursor_module, defining) && st.fields@.len() > 0 && fields_label(
            st.name@,
            !st.positional,
        ) == label {
            1nat
        } else {
            0nat
        },
{
    let d = datatype_items(
        cursor_module,
        defining,
        st.name@,
        CompletionItemKind::Struct,
        st.fields@,
        !st.positional,
    );
    if d.len() == 2 {
        assert(d.drop_last().drop_last().len() == 0);
        assert(snippet_count(d.drop_last().drop_last(), label) == 0);
        assert(d.drop_last().last() == d[0]);
        assert(snippet_count(d.drop_last(), label) == 0);
        assert(d.last() == d[1]);
    } else {
        assert(d.len() == 1);
        assert(d.drop_last().len() == 0);
        assert(snippet_count(d.drop_last(), label) == 0);
        assert(d.last() == d[0]);
    }
}

proof fn lemma_struct_count_zero(
    structs: Seq<StructDef>,
    cursor_module: Option<ModuleId>,
    defining: ModuleKey,
    label: Seq<char>,
)
    requires
        forall|t: int|
            0 <= t < structs.len() ==> fields_label((#[trigger] structs[t]).name@, !structs[t].positional)
                != label,
    ensures
        snippet_count(struct_items(structs, cursor_module, defining), label) == 0,
    decreases structs.len(),
{
    if structs.len() > 0 {
        let p = structs.drop_last();
        assert forall|t: int| 0 <= t < p.len() implies fields_label(
            (#[trigger] p[t]).name@,
            !p[t].positional,
        ) != label by {
            assert(p[t] == structs[t]);
        }
        lemma_struct_count_zero(p, cursor_module, defining, label);
        let s = structs.last();
        assert(fields_label(structs[structs.len() - 1].name@, !structs[structs.len() - 1].positional) != label);
        lemma_block_count(cursor_module, defining, s, label);
        lemma_count_append(
            struct_items(p, cursor_module, defining),
            datatype_items(cursor_module, defining, s.name@, CompletionItemKind::Struct, s.fields@, !s.positional),
            label,
        );
    }
}

proof fn lemma_struct_count_one(
    structs: Seq<StructDef>,
    cursor_module: Option<ModuleId>,
    defining: ModuleKey,
    k: int,
)
    requires
        strictly_sorted(names(structs)),
        in_module(cursor_module, defining),
        0 <= k < structs.len(),
        structs[k].fields@.len() > 0,
    ensures
        snippet_count(
            struct_items(structs, cursor_module, defining),
            fields_label(structs[k].name@, !structs[k].positional),
        ) == 1,
    decreases structs.len(),
{
    let label = fields_label(structs[k].name@, !structs[k].positional);
    let p = structs.drop_last();
    let s = structs.last();
    let last = structs.len() - 1;
    assert(names(structs)[k] == structs[k].name@);
    assert(names(structs)[last] == s.name@);
    lemma_block_count(cursor_module, defining, s, label);
    lemma_count_append(
        struct_items(p, cursor_module, defining),
        datatype_items(cursor_module, defining, s.name@, CompletionItemKind::Struct, s.fields@, !s.positional),
        label,
    );
    if k == last {
        assert forall|t: int| 0 <= t < p.len() implies fields_label(
            (#[trigger] p[t]).name@,
            !p[t].positional,
        ) != label by {
            assert(p[t] == structs[t]);
            assert(names(structs)[t] == structs[t].name@);
            assert(text_lt(names(structs)[t], names(structs)[last]));
            if fields_label(p[t].name@, !p[t].positional) == label {
                lemma_label_injective(p[t].name@, !p[t].positional, s.name@, !s.positional);
                lemma_text_lt_irreflexive(s.name@);
            }
        }
        lemma_struct_count_zero(p, cursor_module, defining, label);
    } else {
        assert(strictly_sorted(names(p))) by {
            assert forall|i: int, j: int| 0 <= i < j < names(p).len() implies text_lt(
                #[trigger] names(p)[i],
                #[trigger] names(p)[j],
            ) by {
                assert(names(p)[i] == names(structs)[i] && names(p)[j] == names(structs)[j]);
            }
        }
        assert(p[k] == structs[k]);
        lemma_struct_count_one(p, cursor_module, defining, k);
        assert(text_lt(names(structs)[k], names(structs)[last]));
        if fields_label(s.name@, !s.positional) == label {
            lemma_label_injective(s.name@, !s.positional, structs[k].name@, !structs[k].positional);
            lemma_text_lt_irreflexive(s.name@);
        }
    }
}

proof fn lemma_module_defs_ident(mods: Seq<ModuleDefs>, key: ModuleKey)
    ensures
        module_defs(mods, key) matches Some(d) ==> d.ident@ == key && mods.contains(d),
    decreases mods.len(),
{
    if mods.len() > 0 && mods[0].ident@ != key {
        lemma_module_defs_ident(mods.drop_first(), key);
        if let Some(d) = module_defs(mods, key) {
            let k = choose|k: int| 0 <= k < mods.drop_first().len() && mods.drop_first()[k] == d;
            assert(mods[k + 1] == d);
        }
    } else if mods.len() > 0 {
        assert(mods[0] == mods[0]);
    }
}

/// Enumerating the members of a module `m` whose tables are keyed by name: a
/// requester outside `m` gets no struct snippet at all; a requester in `m`
/// gets, for each struct with fields, exactly one snippet.
pub proof fn lemma_one_snippet_per_struct(
    symbols: Symbols,
    cursor_module: Option<ModuleId>,
    m: ModuleKey,
    chain_kind: ChainCompletionKind,
    inside_use: bool,
    k: int,
)
    requires
        symbols.wf(),
        module_defs(symbols.modules@, m) is Some,
        offers_types(chain_kind),
    ensures
        !in_module(cursor_module, m) ==> forall|i: int|
            0 <= i < module_member_items(symbols, cursor_module, m, chain_kind, inside_use).len()
                && (#[trigger] module_member_items(
                symbols,
                cursor_module,
                m,
                chain_kind,
                inside_use,
            )[i]).kind is Struct ==> module_member_items(
                symbols,
                cursor_module,
                m,
                chain_kind,
                inside_use,
            )[i].snippet is None,
        ({
            let defs = module_defs(symbols.modules@, m).unwrap();
            in_module(cursor_module, m) && 0 <= k < defs.structs@.len()
                && defs.structs@[k].fields@.len() > 0 ==> snippet_count(
                module_member_items(symbols, cursor_module, m, chain_kind, inside_use),
                fields_label(defs.structs@[k].name@, !defs.structs@[k].positional),
            ) == 1
        }),
{
    let defs = module_defs(symbols.modules@, m).unwrap();
    lemma_module_defs_ident(symbols.modules@, m);
    let w = choose|w: int| 0 <= w < symbols.modules@.len() && symbols.modules@[w] == defs;
    assert(symbols.modules@[w].wf());
    let sm = in_module(cursor_module, m);
    let sp = in_package_of(cursor_module, m);
    let f = if offers_functions(chain_kind) {
        function_items(defs.functions@, sm, sp, inside_use)
    } else {
        Seq::empty()
    };
    let si = struct_items(defs.structs@, cursor_module, defs.ident@);
    let ei = enum_items(defs.enums@);
    let c = if chain_kind is All && sm {
        constant_items(defs.constants@)
    } else {
        Seq::empty()
    };
    let offered = module_member_items(symbols, cursor_module, m, chain_kind, inside_use);
    assert(offered == f + (si + ei) + c);
    lemma_function_items(defs.functions@, sm, sp, inside_use);
    lemma_struct_items(defs.structs@, cursor_module, defs.ident@);
    lemma_enum_items(defs.enums@);
    lemma_constant_items(defs.constants@);
    if !sm {
        assert forall|i: int| 0 <= i < offered.len() && (#[trigger] offered[i]).kind is Struct implies offered[i].snippet is None by {
            if i < f.len() {
                assert(offered[i] == f[i]);
            } else if i < f.len() + si.len() {
                assert(offered[i] == si[i - f.len()]);
            } else if i < f.len() + si.len() + ei.len() {
                assert(offered[i] == ei[i - f.len() - si.len()]);
            } else {
                assert(offered[i] == c[i - f.len() - si.len() - ei.len()]);
            }
        }
    }
    if sm && 0 <= k < defs.structs@.len() && defs.structs@[k].fields@.len() > 0 {
        let label = fields_label(defs.structs@[k].name@, !defs.structs@[k].positional);
        lemma_struct_count_one(defs.structs@, cursor_module, defs.ident@, k);
        lemma_count_none(f, label);
        lemma_count_none(ei, label);
        lemma_count_none(c, label);
        lemma_count_append(si, ei, label);
        lemma_count_append(f, si + ei, label);
        lemma_count_append(f + (si + ei), c, label);
    }
}

} // verus!
