//! Candidates for the members of a module: functions with call templates,
//! datatypes with literal-construction snippets, enums and constants.
use crate::model::{
    append_items, completion_item, find_named, first_at, items, lemma_first_at, names, plain, ChainCompletionKind,
    CompletionItem, CompletionItemKind, ConstantDef, CursorContext, EnumDef, FunctionDef,
    ItemView, MemberAlias, ModuleId, ModuleKey, StructDef, Symbols, VariantDef, Visibility,
};
use crate::packages::{mod_defs, module_defs};
use crate::text::{dec_digits, radix_text, texts};
use vstd::prelude::*;

verus! {

/// `parts` with `sep` between each two neighbours.
pub open spec fn join(parts: Seq<Seq<char>>, sep: Seq<char>) -> Seq<char>
    decreases parts.len(),
{
    if parts.len() == 0 {
        Seq::empty()
    } else if parts.len() == 1 {
        parts[0]
    } else {
        join(parts.drop_last(), sep) + sep + parts.last()
    }
}

/// The placeholder for the field at position `i` (counted from one).
pub open spec fn placeholder(i: nat, field: Seq<char>, named: bool) -> Seq<char> {
    if named {
        "${"@ + dec_digits(i) + ":"@ + field + "}"@
    } else {
        "${"@ + dec_digits(i) + "}"@
    }
}

/// One placeholder per field, in field order.
pub open spec fn field_placeholders(fields: Seq<String>, named: bool) -> Seq<Seq<char>> {
    Seq::new(fields.len(), |i: int| placeholder((i + 1) as nat, fields[i]@, named))
}

/// Whether a literal with `count` fields spreads them over several lines.
pub open spec fn multi_line(count: nat, named: bool) -> bool {
    named && count > 2
}

pub open spec fn field_separator(count: nat, named: bool) -> Seq<char> {
    if multi_line(count, named) {
        ",\n\t"@
    } else {
        ", "@
    }
}

/// The literal-construction template of datatype `name` with `fields`.
pub open spec fn fields_template(name: Seq<char>, fields: Seq<String>, named: bool) -> Seq<char> {
    let list = join(field_placeholders(fields, named), field_separator(fields.len(), named));
    if !named {
        name + "("@ + list + ")"@
    } else if fields.len() > 2 {
        name + " {\n\t"@ + list + ",\n}"@
    } else {
        name + " { "@ + list + " }"@
    }
}

/// The label of a literal-construction candidate.
pub open spec fn fields_label(name: Seq<char>, named: bool) -> Seq<char> {
    if named {
        name + "{..}"@
    } else {
        name + "(..)"@
    }
}

/// Whether the cursor's enclosing module is module `m`.
pub open spec fn in_module(cursor_module: Option<ModuleId>, m: ModuleKey) -> bool {
    cursor_module is Some && cursor_module.unwrap()@ == m
}

/// Whether the cursor's enclosing module lies in the package of module `m`.
pub open spec fn in_package_of(cursor_module: Option<ModuleId>, m: ModuleKey) -> bool {
    cursor_module is Some && cursor_module.unwrap().address@ == m.address
}

/// The candidates for a struct or variant: always its bare name, and a
/// literal snippet where it has fields and is declared in the cursor's module.
pub open spec fn datatype_items(
    cursor_module: Option<ModuleId>,
    defining: ModuleKey,
    name: Seq<char>,
    kind: CompletionItemKind,
    fields: Seq<String>,
    named: bool,
) -> Seq<ItemView> {
    if fields.len() == 0 || !in_module(cursor_module, defining) {
        seq![plain(name, kind)]
    } else {
        seq![
            plain(name, kind),
            ItemView {
                label: fields_label(name, named),
                kind,
                snippet: Some(fields_template(name, fields, named)),
            },
        ]
    }
}

/// The placeholders of a call with `n` arguments.
pub open spec fn call_placeholders(n: nat) -> Seq<Seq<char>> {
    Seq::new(n, |i: int| "$"@ + dec_digits((i + 1) as nat))
}

/// The call template of function `name` with `n` parameters.
pub open spec fn call_template(name: Seq<char>, is_macro: bool, n: nat) -> Seq<char> {
    name + (if is_macro {
        "!"@
    } else {
        Seq::empty()
    }) + "("@ + join(call_placeholders(n), ", "@) + ")"@
}

/// The candidate for function `f` offered under `label`: inside an import the
/// bare name, elsewhere with a call template.
pub open spec fn function_item(f: FunctionDef, label: Seq<char>, inside_use: bool) -> ItemView {
    if inside_use {
        plain(label, CompletionItemKind::Function)
    } else {
        ItemView {
            label,
            kind: CompletionItemKind::Function,
            snippet: Some(call_template(label, f.is_macro, f.params@.len())),
        }
    }
}

fn join_texts(parts: &Vec<String>, sep: &str) -> (r: String)
    ensures
        r@ == join(texts(parts@), sep@),
{
    let mut out = String::new();
    let mut i: usize = 0;
    while i < parts.len()
        invariant
            i <= parts.len(),
            out@ == join(texts(parts@).take(i as int), sep@),
        decreases parts.len() - i,
    {
        assert(texts(parts@).take(i + 1).drop_last() =~= texts(parts@).take(i as int));
        if i > 0 {
            out.append(sep);
        }
        out.append(parts[i].as_str());
        proof {
            if i == 0 {
                assert(out@ =~= join(texts(parts@).take(1), sep@));
            }
        }
        i = i + 1;
    }
    assert(texts(parts@).take(i as int) =~= texts(parts@));
    out
}

fn placeholder_text(i: usize, field: &String, named: bool) -> (r: String)
    ensures
        r@ == placeholder(i as nat, field@, named),
{
    let number = radix_text(i as u128, 10);
    let open = String::from_str("${");
    let text = open.concat(number.as_str());
    if named {
        text.concat(":").concat(field.as_str()).concat("}")
    } else {
        text.concat("}")
    }
}

fn join_field_placeholders(fields: &Vec<String>, named: bool, sep: &str) -> (r: String)
    ensures
        r@ == join(field_placeholders(fields@, named), sep@),
{
    let mut parts: Vec<String> = Vec::new();
    let mut i: usize = 0;
    while i < fields.len()
        invariant
            i <= fields.len(),
            texts(parts@) =~= field_placeholders(fields@, named).take(i as int),
        decreases fields.len() - i,
    {
        let p = placeholder_text(i + 1, &fields[i], named);
        let ghost before = parts@;
        let ghost text = p@;
        parts.push(p);
        assert(texts(parts@) =~= texts(before).push(text));
        assert(field_placeholders(fields@, named).take(i + 1) =~= field_placeholders(
            fields@,
            named,
        ).take(i as int).push(text));
        i = i + 1;
    }
    assert(field_placeholders(fields@, named).take(i as int) =~= field_placeholders(fields@, named));
    join_texts(&parts, sep)
}

/// Handles completion for structs and enum variants: the datatype's name, and
/// a literal snippet over its fields where the cursor is in the module that
/// declares it.
pub fn datatype_completion(
    cursor: &CursorContext,
    defining_mod_ident: &ModuleId,
    field_container: &String,
    kind: CompletionItemKind,
    field_names: &Vec<String>,
    named_fields: bool,
) -> (r: Vec<CompletionItem>)
    ensures
        items(r@) == datatype_items(
            cursor.module,
            defining_mod_ident@,
            field_container@,
            kind,
            field_names@,
            named_fields,
        ),
{
    let mut completions = vec![completion_item(field_container, kind)];
    let same = match &cursor.module {
        Some(m) => m.same(defining_mod_ident),
        None => false,
    };
    if field_names.len() == 0 || !same {
        assert(items(completions@) =~= seq![plain(field_container@, kind)]);
        return completions;
    }
    let multi = named_fields && field_names.len() > 2;
    let list = if multi {
        join_field_placeholders(field_names, named_fields, ",\n\t")
    } else {
        join_field_placeholders(field_names, named_fields, ", ")
    };
    let (label, insert_text) = if !named_fields {
        (
            field_container.clone().concat("(..)"),
            field_container.clone().concat("(").concat(list.as_str()).concat(")"),
        )
    } else if field_names.len() > 2 {
        (
            field_container.clone().concat("{..}"),
            field_container.clone().concat(" {\n\t").concat(list.as_str()).concat(",\n}"),
        )
    } else {
        (
            field_container.clone().concat("{..}"),
            field_container.clone().concat(" { ").concat(list.as_str()).concat(" }"),
        )
    };
    completions.push(CompletionItem { label, kind, snippet: Some(insert_text) });
    assert(items(completions@) =~= datatype_items(
        cursor.module,
        defining_mod_ident@,
        field_container@,
        kind,
        field_names@,
        named_fields,
    ));
    completions
}

fn call_template_text(label: &String, is_macro: bool, n: usize) -> (r: String)
    ensures
        r@ == call_template(label@, is_macro, n as nat),
{
    let mut parts: Vec<String> = Vec::new();
    let mut i: usize = 0;
    while i < n
        invariant
            i <= n,
            texts(parts@) =~= call_placeholders(n as nat).take(i as int),
        decreases n - i,
    {
        let number = radix_text((i + 1) as u128, 10);
        let p = String::from_str("$").concat(number.as_str());
        let ghost before = parts@;
        let ghost text = p@;
        parts.push(p);
        assert(texts(parts@) =~= texts(before).push(text));
        assert(call_placeholders(n as nat).take(i + 1) =~= call_placeholders(n as nat).take(
            i as int,
        ).push(text));
        i = i + 1;
    }
    assert(call_placeholders(n as nat).take(i as int) =~= call_placeholders(n as nat));
    let args = join_texts(&parts, ", ");
    let head = if is_macro {
        label.clone().concat("!")
    } else {
        label.clone()
    };
    let r = head.concat("(").concat(args.as_str()).concat(")");
    assert(r@ =~= call_template(label@, is_macro, n as nat));
    r
}

/// The candidate for a function offered under `label`.
pub fn call_completion_item(f: &FunctionDef, label: &String, inside_use: bool) -> (r:
    CompletionItem)
    ensures
        r@ == function_item(*f, label@, inside_use),
{
    if inside_use {
        completion_item(label, CompletionItemKind::Function)
    } else {
        let snippet = call_template_text(label, f.is_macro, f.params.len());
        CompletionItem {
            label: label.clone(),
            kind: CompletionItemKind::Function,
            snippet: Some(snippet),
        }
    }
}

/// Whether a member with visibility `vis` is visible to the requester.
pub open spec fn visible(vis: Visibility, same_module: bool, same_package: bool) -> bool {
    match vis {
        Visibility::ModulePrivate => same_module,
        Visibility::PackageVisible => same_package,
        Visibility::Public => true,
    }
}

/// The candidates of the visible functions, in table order.
pub open spec fn function_items(
    fns: Seq<FunctionDef>,
    same_module: bool,
    same_package: bool,
    inside_use: bool,
) -> Seq<ItemView>
    decreases fns.len(),
{
    if fns.len() == 0 {
        Seq::empty()
    } else {
        let rest = function_items(fns.drop_last(), same_module, same_package, inside_use);
        if visible(fns.last().visibility, same_module, same_package) {
            rest.push(function_item(fns.last(), fns.last().name@, inside_use))
        } else {
            rest
        }
    }
}

/// The candidates of the structs, in table order.
pub open spec fn struct_items(
    structs: Seq<StructDef>,
    cursor_module: Option<ModuleId>,
    defining: ModuleKey,
) -> Seq<ItemView>
    decreases structs.len(),
{
    if structs.len() == 0 {
        Seq::empty()
    } else {
        let s = structs.last();
        struct_items(structs.drop_last(), cursor_module, defining) + datatype_items(
            cursor_module,
            defining,
            s.name@,
            CompletionItemKind::Struct,
            s.fields@,
            !s.positional,
        )
    }
}

/// The bare-name candidates of the enums, in table order.
pub open spec fn enum_items(enums: Seq<EnumDef>) -> Seq<ItemView>
    decreases enums.len(),
{
    if enums.len() == 0 {
        Seq::empty()
    } else {
        enum_items(enums.drop_last()).push(plain(enums.last().name@, CompletionItemKind::Enum))
    }
}

/// The candidates of the constants, in table order.
pub open spec fn constant_items(consts: Seq<ConstantDef>) -> Seq<ItemView>
    decreases consts.len(),
{
    if consts.len() == 0 {
        Seq::empty()
    } else {
        constant_items(consts.drop_last()).push(
            plain(consts.last().name@, CompletionItemKind::Constant),
        )
    }
}

pub open spec fn offers_functions(kind: ChainCompletionKind) -> bool {
    kind is Function || kind is All
}

pub open spec fn offers_types(kind: ChainCompletionKind) -> bool {
    kind is Type || kind is All
}

/// The members of module `m` offered for `chain_kind` to a requester in
/// `cursor_module`: visible functions, then structs and enums, then (only
/// within the module itself) constants.
pub open spec fn module_member_items(
    symbols: Symbols,
    cursor_module: Option<ModuleId>,
    m: ModuleKey,
    chain_kind: ChainCompletionKind,
    inside_use: bool,
) -> Seq<ItemView> {
    match module_defs(symbols.modules@, m) {
        None => Seq::empty(),
        Some(defs) => {
            let same_module = in_module(cursor_module, m);
            let same_package = in_package_of(cursor_module, m);
            (if offers_functions(chain_kind) {
                function_items(defs.functions@, same_module, same_package, inside_use)
            } else {
                Seq::empty()
            }) + (if offers_types(chain_kind) {
                struct_items(defs.structs@, cursor_module, defs.ident@) + enum_items(
                    defs.enums@,
                )
            } else {
                Seq::empty()
            }) + (if chain_kind is All && same_module {
                constant_items(defs.constants@)
            } else {
                Seq::empty()
            })
        },
    }
}

proof fn lemma_items_push(a: Seq<CompletionItem>, b: CompletionItem)
    ensures
        items(a.push(b)) == items(a).push(b@),
{
    assert(items(a.push(b)) =~= items(a).push(b@));
}


fn function_completions(
    fns: &Vec<FunctionDef>,
    same_module: bool,
    same_package: bool,
    inside_use: bool,
) -> (r: Vec<CompletionItem>)
    ensures
        items(r@) == function_items(fns@, same_module, same_package, inside_use),
{
    let mut out: Vec<CompletionItem> = Vec::new();
    let mut i: usize = 0;
    while i < fns.len()
        invariant
            i <= fns.len(),
            items(out@) == function_items(fns@.take(i as int), same_module, same_package, inside_use),
        decreases fns.len() - i,
    {
        assert(fns@.take(i + 1).drop_last() =~= fns@.take(i as int));
        let f = &fns[i];
        let shown = match f.visibility {
            Visibility::ModulePrivate => same_module,
            Visibility::PackageVisible => same_package,
            Visibility::Public => true,
        };
        if shown {
            let c = call_completion_item(f, &f.name, inside_use);
            proof {
                lemma_items_push(out@, c);
            }
            out.push(c);
        }
        i = i + 1;
    }
    assert(fns@.take(i as int) =~= fns@);
    out
}

fn struct_completions(structs: &Vec<StructDef>, cursor: &CursorContext, defining: &ModuleId) -> (r:
    Vec<CompletionItem>)
    ensures
        items(r@) == struct_items(structs@, cursor.module, defining@),
{
    let mut out: Vec<CompletionItem> = Vec::new();
    let mut i: usize = 0;
    while i < structs.len()
        invariant
            i <= structs.len(),
            items(out@) == struct_items(structs@.take(i as int), cursor.module, defining@),
        decreases structs.len() - i,
    {
        assert(structs@.take(i + 1).drop_last() =~= structs@.take(i as int));
        let s = &structs[i];
        let more = struct_completion(cursor, defining, s);
        append_items(&mut out, more);
        i = i + 1;
    }
    assert(structs@.take(i as int) =~= structs@);
    out
}

fn enum_completions(enums: &Vec<EnumDef>) -> (r: Vec<CompletionItem>)
    ensures
        items(r@) == enum_items(enums@),
{
    let mut out: Vec<CompletionItem> = Vec::new();
    let mut i: usize = 0;
    while i < enums.len()
        invariant
            i <= enums.len(),
            items(out@) == enum_items(enums@.take(i as int)),
        decreases enums.len() - i,
    {
        assert(enums@.take(i + 1).drop_last() =~= enums@.take(i as int));
        let c = completion_item(&enums[i].name, CompletionItemKind::Enum);
        proof {
            lemma_items_push(out@, c);
        }
        out.push(c);
        i = i + 1;
    }
    assert(enums@.take(i as int) =~= enums@);
    out
}

fn constant_completions(consts: &Vec<ConstantDef>) -> (r: Vec<CompletionItem>)
    ensures
        items(r@) == constant_items(consts@),
{
    let mut out: Vec<CompletionItem> = Vec::new();
    let mut i: usize = 0;
    while i < consts.len()
        invariant
            i <= consts.len(),
            items(out@) == constant_items(consts@.take(i as int)),
        decreases consts.len() - i,
    {
        assert(consts@.take(i + 1).drop_last() =~= consts@.take(i as int));
        let c = completion_item(&consts[i].name, CompletionItemKind::Constant);
        proof {
            lemma_items_push(out@, c);
        }
        out.push(c);
        i = i + 1;
    }
    assert(consts@.take(i as int) =~= consts@);
    out
}

/// Computes completions for a struct: its name, and a literal snippet where
/// the cursor is in the module that declares it.
pub fn struct_completion(cursor: &CursorContext, defining_mod_ident: &ModuleId, s: &StructDef) -> (r:
    Vec<CompletionItem>)
    ensures
        items(r@) == datatype_items(
            cursor.module,
            defining_mod_ident@,
            s.name@,
            CompletionItemKind::Struct,
            s.fields@,
            !s.positional,
        ),
{
    datatype_completion(
        cursor,
        defining_mod_ident,
        &s.name,
        CompletionItemKind::Struct,
        &s.fields,
        !s.positional,
    )
}

/// Returns all possible completions for a member of module `prefix_mod_ident`,
/// filtered by what the chain may stand for and by what the requester may see.
pub fn module_member_completions(
    symbols: &Symbols,
    cursor: &CursorContext,
    prefix_mod_ident: &ModuleId,
    chain_kind: ChainCompletionKind,
    inside_use: bool,
) -> (r: Vec<CompletionItem>)
    ensures
        items(r@) == module_member_items(
            *symbols,
            cursor.module,
            prefix_mod_ident@,
            chain_kind,
            inside_use,
        ),
{
    let mut completions: Vec<CompletionItem> = Vec::new();
    let idx = match mod_defs(symbols, prefix_mod_ident) {
        Some(i) => i,
        None => {
            assert(items(completions@) =~= Seq::<ItemView>::empty());
            return completions;
        },
    };
    let defs = &symbols.modules[idx];
    let (same_module, same_package) = match &cursor.module {
        Some(m) => (m.same(prefix_mod_ident), m.address.same(&prefix_mod_ident.address)),
        None => (false, false),
    };
    assert(items(completions@) =~= Seq::<ItemView>::empty());
    let wants_functions = match chain_kind {
        ChainCompletionKind::Function | ChainCompletionKind::All => true,
        ChainCompletionKind::Type => false,
    };
    if wants_functions {
        append_items(
            &mut completions,
            function_completions(&defs.functions, same_module, same_package, inside_use),
        );
    }
    let ghost part1 = items(completions@);
    let wants_types = match chain_kind {
        ChainCompletionKind::Type | ChainCompletionKind::All => true,
        ChainCompletionKind::Function => false,
    };
    if wants_types {
        append_items(&mut completions, struct_completions(&defs.structs, cursor, &defs.ident));
        append_items(&mut completions, enum_completions(&defs.enums));
    }
    let ghost part2 = items(completions@);
    let wants_constants = match chain_kind {
        ChainCompletionKind::All => same_module,
        _ => false,
    };
    if wants_constants {
        append_items(&mut completions, constant_completions(&defs.constants));
    }
    proof {
        let e = Seq::<ItemView>::empty();
        assert(part1 =~= e + part1);
        assert(part2 =~= part1 + (if offers_types(chain_kind) {
            struct_items(defs.structs@, cursor.module, defs.ident@) + enum_items(defs.enums@)
        } else {
            e
        }));
        assert(items(completions@) =~= part2 + (if chain_kind is All && same_module {
            constant_items(defs.constants@)
        } else {
            e
        }));
    }
    completions
}

/// The candidates for member `member` of module `m` offered under `alias`,
/// as if it were a chain of one segment.
pub open spec fn single_name_items(
    symbols: Symbols,
    cursor_module: Option<ModuleId>,
    m: ModuleKey,
    alias: Seq<char>,
    member: Seq<char>,
    chain_kind: ChainCompletionKind,
) -> Seq<ItemView> {
    match module_defs(symbols.modules@, m) {
        None => Seq::empty(),
        Some(defs) => {
            let fi = first_at(names(defs.functions@), member);
            let si = first_at(names(defs.structs@), member);
            if fi >= 0 {
                if offers_functions(chain_kind) {
                    seq![function_item(defs.functions@[fi], alias, false)]
                } else {
                    Seq::empty()
                }
            } else if si >= 0 {
                if offers_types(chain_kind) {
                    let st = defs.structs@[si];
                    datatype_items(
                        cursor_module,
                        defs.ident@,
                        alias,
                        CompletionItemKind::Struct,
                        st.fields@,
                        !st.positional,
                    )
                } else {
                    Seq::empty()
                }
            } else if first_at(names(defs.enums@), member) >= 0 {
                if offers_types(chain_kind) {
                    seq![plain(alias, CompletionItemKind::Enum)]
                } else {
                    Seq::empty()
                }
            } else if first_at(names(defs.constants@), member) >= 0 {
                if chain_kind is All {
                    seq![plain(alias, CompletionItemKind::Constant)]
                } else {
                    Seq::empty()
                }
            } else {
                Seq::empty()
            }
        },
    }
}

/// The candidates of every aliased member, in alias order.
pub open spec fn alias_member_items(
    symbols: Symbols,
    cursor_module: Option<ModuleId>,
    members: Seq<MemberAlias>,
    chain_kind: ChainCompletionKind,
) -> Seq<ItemView>
    decreases members.len(),
{
    if members.len() == 0 {
        Seq::empty()
    } else {
        let a = members.last();
        alias_member_items(symbols, cursor_module, members.drop_last(), chain_kind)
            + single_name_items(symbols, cursor_module, a.module@, a.alias@, a.member@, chain_kind)
    }
}

/// Returns the candidates for a member of a module, available under an alias,
/// as if it were a chain of one segment.
pub fn single_name_member_completion(
    symbols: &Symbols,
    cursor: &CursorContext,
    mod_ident: &ModuleId,
    member_alias: &String,
    member_name: &String,
    chain_kind: ChainCompletionKind,
) -> (r: Vec<CompletionItem>)
    ensures
        items(r@) == single_name_items(
            *symbols,
            cursor.module,
            mod_ident@,
            member_alias@,
            member_name@,
            chain_kind,
        ),
{
    let empty: Vec<CompletionItem> = Vec::new();
    proof {
        assert(items(empty@) =~= Seq::<ItemView>::empty());
    }
    let idx = match mod_defs(symbols, mod_ident) {
        Some(i) => i,
        None => {
            return empty;
        },
    };
    let defs = &symbols.modules[idx];
    proof {
        lemma_first_at(names(defs.functions@), member_name@);
        lemma_first_at(names(defs.structs@), member_name@);
    }
    if let Some(fi) = find_named(&defs.functions, member_name) {
        match chain_kind {
            ChainCompletionKind::Type => {
                return empty;
            },
            _ => {},
        }
        let c = call_completion_item(&defs.functions[fi], member_alias, false);
        let r = vec![c];
        assert(items(r@) =~= seq![c@]);
        return r;
    }
    if let Some(si) = find_named(&defs.structs, member_name) {
        match chain_kind {
            ChainCompletionKind::Function => {
                return empty;
            },
            _ => {},
        }
        let st = &defs.structs[si];
        return datatype_completion(
            cursor,
            &defs.ident,
            member_alias,
            CompletionItemKind::Struct,
            &st.fields,
            !st.positional,
        );
    }
    if let Some(_) = find_named(&defs.enums, member_name) {
        match chain_kind {
            ChainCompletionKind::Function => {
                return empty;
            },
            _ => {},
        }
        let r = vec![completion_item(member_alias, CompletionItemKind::Enum)];
        assert(items(r@) =~= seq![plain(member_alias@, CompletionItemKind::Enum)]);
        return r;
    }
    if let Some(_) = find_named(&defs.constants, member_name) {
        match chain_kind {
            ChainCompletionKind::All => {},
            _ => {
                return empty;
            },
        }
        let r = vec![completion_item(member_alias, CompletionItemKind::Constant)];
        assert(items(r@) =~= seq![plain(member_alias@, CompletionItemKind::Constant)]);
        return r;
    }
    empty
}

/// Returns the candidates of every aliased member, as if each were a chain of
/// one segment.
pub fn all_single_name_member_completions(
    symbols: &Symbols,
    cursor: &CursorContext,
    members_info: &Vec<MemberAlias>,
    chain_kind: ChainCompletionKind,
) -> (r: Vec<CompletionItem>)
    ensures
        items(r@) == alias_member_items(*symbols, cursor.module, members_info@, chain_kind),
{
    let mut completions: Vec<CompletionItem> = Vec::new();
    let mut i: usize = 0;
    while i < members_info.len()
        invariant
            i <= members_info.len(),
            items(completions@) == alias_member_items(
                *symbols,
                cursor.module,
                members_info@.take(i as int),
                chain_kind,
            ),
        decreases members_info.len() - i,
    {
        assert(members_info@.take(i + 1).drop_last() =~= members_info@.take(i as int));
        let a = &members_info[i];
        let more = single_name_member_completion(
            symbols,
            cursor,
            &a.module,
            &a.alias,
            &a.member,
            chain_kind,
        );
        append_items(&mut completions, more);
        i = i + 1;
    }
    assert(members_info@.take(i as int) =~= members_info@);
    completions
}

/// The candidates of the variants, in declaration order.
pub open spec fn variant_items(
    variants: Seq<VariantDef>,
    cursor_module: Option<ModuleId>,
    defining: ModuleKey,
) -> Seq<ItemView>
    decreases variants.len(),
{
    if variants.len() == 0 {
        Seq::empty()
    } else {
        let v = variants.last();
        variant_items(variants.drop_last(), cursor_module, defining) + datatype_items(
            cursor_module,
            defining,
            v.name@,
            CompletionItemKind::EnumMember,
            v.fields@,
            !v.positional,
        )
    }
}

/// The candidates of the variants of datatype `datatype` of module `m`.
pub open spec fn enum_variant_items(
    symbols: Symbols,
    cursor_module: Option<ModuleId>,
    m: ModuleKey,
    datatype: Seq<char>,
) -> Seq<ItemView> {
    match module_defs(symbols.modules@, m) {
        None => Seq::empty(),
        Some(defs) => {
            let ei = first_at(names(defs.enums@), datatype);
            if ei >= 0 {
                variant_items(defs.enums@[ei].variants@, cursor_module, defs.ident@)
            } else {
                Seq::empty()
            }
        },
    }
}

/// Computes completions for a single enum variant.
pub fn variant_completion(cursor: &CursorContext, defining_mod_ident: &ModuleId, vinfo: &VariantDef) -> (r:
    Vec<CompletionItem>)
    ensures
        items(r@) == datatype_items(
            cursor.module,
            defining_mod_ident@,
            vinfo.name@,
            CompletionItemKind::EnumMember,
            vinfo.fields@,
            !vinfo.positional,
        ),
{
    datatype_completion(
        cursor,
        defining_mod_ident,
        &vinfo.name,
        CompletionItemKind::EnumMember,
        &vinfo.fields,
        !vinfo.positional,
    )
}

/// Computes completions for the variants of a given enum.
pub fn all_variant_completions(
    symbols: &Symbols,
    cursor: &CursorContext,
    mod_ident: &ModuleId,
    datatype_name: &String,
) -> (r: Vec<CompletionItem>)
    ensures
        items(r@) == enum_variant_items(*symbols, cursor.module, mod_ident@, datatype_name@),
{
    let mut completions: Vec<CompletionItem> = Vec::new();
    assert(items(completions@) =~= Seq::<ItemView>::empty());
    let idx = match mod_defs(symbols, mod_ident) {
        Some(i) => i,
        None => {
            return completions;
        },
    };
    let defs = &symbols.modules[idx];
    proof {
        lemma_first_at(names(defs.enums@), datatype_name@);
    }
    let ei = match find_named(&defs.enums, datatype_name) {
        Some(i) => i,
        None => {
            return completions;
        },
    };
    let variants = &defs.enums[ei].variants;
    let mut i: usize = 0;
    while i < variants.len()
        invariant
            i <= variants.len(),
            items(completions@) == variant_items(
                variants@.take(i as int),
                cursor.module,
                defs.ident@,
            ),
        decreases variants.len() - i,
    {
        assert(variants@.take(i + 1).drop_last() =~= variants@.take(i as int));
        let more = variant_completion(cursor, &defs.ident, &variants[i]);
        append_items(&mut completions, more);
        i = i + 1;
    }
    assert(variants@.take(i as int) =~= variants@);
    completions
}

} // verus!
