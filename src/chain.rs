//! Completion along a name chain: classify the leading segment, walk the
//! chain to the segment under the cursor, and offer what fits there.
use crate::members::{
    alias_member_items, all_single_name_member_completions, all_variant_completions,
    enum_variant_items, module_member_completions, module_member_items,
};
use crate::model::{
    append_items, find_named, first_at, items, label_completions, label_items, lemma_first_at,
    name_completions, names, AliasAutocompleteInfo, AliasView, ChainCompletionKind,
    CompletionItem, CompletionItemKind, CursorContext, ItemView, LeadingKey, LeadingName,
    ModuleId, ModuleKey, Segment, Span, Symbols,
};
use crate::packages::{
    alias_info_at, aliases_at, all_packages, is_package_address, is_package_name,
    known_address, known_package_name, mod_defs, module_defs, package_labels, package_modules,
    pkg_mod_identifiers,
};
use crate::text::texts;
use vstd::prelude::*;

verus! {

/// What a chain segment stands for.
#[derive(Debug)]
pub enum ChainComponentKind {
    Package(LeadingName),
    Module(ModuleId),
    Member(ModuleId, String),
}

/// What a chain segment stands for, by identity.
pub enum ComponentKey {
    Package(LeadingKey),
    Module(ModuleKey),
    Member(ModuleKey, Seq<char>),
}

impl View for ChainComponentKind {
    type V = ComponentKey;

    open spec fn view(&self) -> ComponentKey {
        match self {
            ChainComponentKind::Package(l) => ComponentKey::Package(l@),
            ChainComponentKind::Module(m) => ComponentKey::Module(m@),
            ChainComponentKind::Member(m, n) => ComponentKey::Member(m@, n@),
        }
    }
}

/// A chain segment's span and what it stands for.
#[derive(Debug)]
pub struct ChainComponentInfo {
    pub loc: Span,
    pub kind: ChainComponentKind,
}

impl ChainComponentInfo {
    /// A component at `loc` that stands for `kind`.
    pub fn new(loc: Span, kind: ChainComponentKind) -> (r: Self)
        ensures
            r.loc == loc,
            r.kind == kind,
    {
        ChainComponentInfo { loc, kind }
    }
}

/// How far a kind has narrowed: package, module, member.
pub open spec fn depth(k: ComponentKey) -> nat {
    match k {
        ComponentKey::Package(_) => 0,
        ComponentKey::Module(_) => 1,
        ComponentKey::Member(..) => 2,
    }
}

/// What the leading segment stands for: a global name only a package; an
/// address a package where it is known; a plain name a package, else a module
/// alias, else a member alias.
pub open spec fn first_kind(symbols: Symbols, info: AliasView, lead: LeadingKey) -> Option<
    ComponentKey,
> {
    match lead {
        LeadingKey::Name(n) => {
            let mi = first_at(names(info.modules), n);
            let ai = first_at(names(info.members), n);
            if known_package_name(symbols, info, n) {
                Some(ComponentKey::Package(lead))
            } else if mi >= 0 {
                Some(ComponentKey::Module(info.modules[mi].module@))
            } else if ai >= 0 {
                Some(ComponentKey::Member(info.members[ai].module@, info.members[ai].member@))
            } else {
                None
            }
        },
        LeadingKey::AnonymousAddress(a) => if known_address(symbols, info, a) {
            Some(ComponentKey::Package(lead))
        } else {
            None
        },
        LeadingKey::GlobalAddress(n) => if known_package_name(symbols, info, n) {
            Some(ComponentKey::Package(lead))
        } else {
            None
        },
    }
}

/// Whether module `m` declares a member named `name`.
pub open spec fn has_member(symbols: Symbols, m: ModuleKey, name: Seq<char>) -> bool {
    match module_defs(symbols.modules@, m) {
        None => false,
        Some(defs) => names(defs.functions@).contains(name) || names(defs.structs@).contains(name)
            || names(defs.enums@).contains(name) || names(defs.constants@).contains(name),
    }
}

/// What the segment `name` stands for after a segment of kind `prev`: a
/// package narrows to one of its modules, a module to one of its members, a
/// member to nothing.
pub open spec fn next_kind(symbols: Symbols, info: AliasView, prev: ComponentKey, name: Seq<char>) -> Option<
    ComponentKey,
> {
    match prev {
        ComponentKey::Package(lead) => {
            let mods = package_modules(symbols, info, lead);
            let i = first_at(names(mods), name);
            if i >= 0 {
                Some(ComponentKey::Module(mods[i]@))
            } else {
                None
            }
        },
        ComponentKey::Module(m) => if has_member(symbols, m, name) {
            Some(ComponentKey::Member(m, name))
        } else {
            None
        },
        ComponentKey::Member(..) => None,
    }
}

/// The candidates for the segment that follows a segment of kind `prev`.
pub open spec fn entry_items(
    symbols: Symbols,
    cursor_module: Option<ModuleId>,
    info: AliasView,
    prev: ComponentKey,
    chain_kind: ChainCompletionKind,
    inside_use: bool,
) -> Seq<ItemView> {
    match prev {
        ComponentKey::Package(lead) => label_items(
            names(package_modules(symbols, info, lead)),
            CompletionItemKind::Module,
        ),
        ComponentKey::Module(m) => module_member_items(
            symbols,
            cursor_module,
            m,
            chain_kind,
            inside_use,
        ),
        ComponentKey::Member(m, name) => enum_variant_items(symbols, cursor_module, m, name),
    }
}

/// The candidates of a walk down `entries` from position `idx`, where the
/// segment before it spans `prev_loc` and stands for `prev`.
pub open spec fn walk(
    symbols: Symbols,
    cursor_module: Option<ModuleId>,
    cursor: Span,
    info: AliasView,
    prev_loc: Span,
    prev: ComponentKey,
    chain_kind: ChainCompletionKind,
    entries: Seq<Segment>,
    idx: nat,
    triggered: bool,
    inside_use: bool,
) -> Seq<ItemView>
    decreases entries.len() - idx,
{
    let here = entry_items(symbols, cursor_module, info, prev, chain_kind, inside_use);
    if idx >= entries.len() {
        if triggered && cursor.start > prev_loc.end {
            here
        } else {
            Seq::empty()
        }
    } else if triggered && cursor.start > prev_loc.end && cursor.end <= entries[idx as int].loc.start {
        here
    } else if entries[idx as int].loc.holds(cursor) {
        here
    } else {
        match next_kind(symbols, info, prev, entries[idx as int].name@) {
            Some(k) => walk(
                symbols,
                cursor_module,
                cursor,
                info,
                entries[idx as int].loc,
                k,
                chain_kind,
                entries,
                idx + 1,
                triggered,
                inside_use,
            ),
            None => Seq::empty(),
        }
    }
}

/// Computes the kind of the first chain component.
pub fn first_name_chain_component_kind(
    symbols: &Symbols,
    info: &AliasAutocompleteInfo,
    leading_name: &LeadingName,
) -> (r: Option<ChainComponentKind>)
    ensures
        match r {
            Some(k) => first_kind(*symbols, info@, leading_name@) == Some(k@),
            None => first_kind(*symbols, info@, leading_name@) is None,
        },
{
    match leading_name {
        LeadingName::Name(n) => {
            proof {
                lemma_first_at(names(info.modules@), n@);
                lemma_first_at(names(info.members@), n@);
            }
            if is_package_name(symbols, info, n) {
                Some(ChainComponentKind::Package(leading_name.clone()))
            } else if let Some(i) = find_named(&info.modules, n) {
                Some(ChainComponentKind::Module(info.modules[i].module.clone()))
            } else if let Some(i) = find_named(&info.members, n) {
                let a = &info.members[i];
                Some(ChainComponentKind::Member(a.module.clone(), a.member.clone()))
            } else {
                None
            }
        },
        LeadingName::AnonymousAddress(addr) => {
            if is_package_address(symbols, info, addr) {
                Some(ChainComponentKind::Package(leading_name.clone()))
            } else {
                None
            }
        },
        LeadingName::GlobalAddress(n) => {
            if is_package_name(symbols, info, n) {
                Some(ChainComponentKind::Package(leading_name.clone()))
            } else {
                None
            }
        },
    }
}

fn member_exists(symbols: &Symbols, mod_ident: &ModuleId, name: &String) -> (r: bool)
    ensures
        r == has_member(*symbols, mod_ident@, name@),
{
    match mod_defs(symbols, mod_ident) {
        None => false,
        Some(i) => {
            let defs = &symbols.modules[i];
            proof {
                lemma_first_at(names(defs.functions@), name@);
                lemma_first_at(names(defs.structs@), name@);
                lemma_first_at(names(defs.enums@), name@);
                lemma_first_at(names(defs.constants@), name@);
            }
            find_named(&defs.functions, name).is_some() || find_named(&defs.structs, name).is_some()
                || find_named(&defs.enums, name).is_some() || find_named(
                &defs.constants,
                name,
            ).is_some()
        },
    }
}

/// Computes the kind of the next chain component from the kind of the
/// previous one.
pub fn next_name_chain_component_kind(
    symbols: &Symbols,
    info: &AliasAutocompleteInfo,
    prev_kind: &ChainComponentKind,
    component_name: &String,
) -> (r: Option<ChainComponentKind>)
    ensures
        match r {
            Some(k) => next_kind(*symbols, info@, prev_kind@, component_name@) == Some(k@),
            None => next_kind(*symbols, info@, prev_kind@, component_name@) is None,
        },
{
    match prev_kind {
        ChainComponentKind::Package(leading_name) => {
            let mods = pkg_mod_identifiers(symbols, info, leading_name);
            proof {
                lemma_first_at(names(mods@), component_name@);
            }
            match find_named(&mods, component_name) {
                Some(i) => Some(ChainComponentKind::Module(mods[i].clone())),
                None => None,
            }
        },
        ChainComponentKind::Module(mod_ident) => {
            if member_exists(symbols, mod_ident, component_name) {
                Some(ChainComponentKind::Member(mod_ident.clone(), component_name.clone()))
            } else {
                None
            }
        },
        ChainComponentKind::Member(..) => None,
    }
}

/// Computes completions for the segment after a segment of kind `prev_kind`.
pub fn name_chain_entry_completions(
    symbols: &Symbols,
    cursor: &CursorContext,
    info: &AliasAutocompleteInfo,
    prev_kind: &ChainComponentKind,
    chain_kind: ChainCompletionKind,
    inside_use: bool,
) -> (r: Vec<CompletionItem>)
    ensures
        items(r@) == entry_items(
            *symbols,
            cursor.module,
            info@,
            prev_kind@,
            chain_kind,
            inside_use,
        ),
{
    match prev_kind {
        ChainComponentKind::Package(leading_name) => {
            let mods = pkg_mod_identifiers(symbols, info, leading_name);
            name_completions(&mods, CompletionItemKind::Module)
        },
        ChainComponentKind::Module(mod_ident) => {
            module_member_completions(symbols, cursor, mod_ident, chain_kind, inside_use)
        },
        ChainComponentKind::Member(mod_ident, member_name) => {
            all_variant_completions(symbols, cursor, mod_ident, member_name)
        },
    }
}

/// Walks down a name chain to the part that holds the cursor, and computes the
/// completions there. Each step narrows the kind, so the walk descends at
/// most three levels whatever the chain's length.
pub fn completions_for_name_chain_entry(
    symbols: &Symbols,
    cursor: &CursorContext,
    info: &AliasAutocompleteInfo,
    prev_info: ChainComponentInfo,
    chain_kind: ChainCompletionKind,
    path_entries: &Vec<Segment>,
    path_index: usize,
    colon_colon_triggered: bool,
    inside_use: bool,
) -> (r: Vec<CompletionItem>)
    requires
        path_index <= path_entries.len(),
    ensures
        items(r@) == walk(
            *symbols,
            cursor.module,
            cursor.loc,
            info@,
            prev_info.loc,
            prev_info.kind@,
            chain_kind,
            path_entries@,
            path_index as nat,
            colon_colon_triggered,
            inside_use,
        ),
    decreases path_entries.len() - path_index,
{
    let ChainComponentInfo { loc: prev_loc, kind: prev_kind } = prev_info;
    let past_prev = colon_colon_triggered && cursor.loc.start > prev_loc.end;
    if path_index == path_entries.len() {
        if past_prev {
            return name_chain_entry_completions(
                symbols,
                cursor,
                info,
                &prev_kind,
                chain_kind,
                inside_use,
            );
        }
        let none: Vec<CompletionItem> = Vec::new();
        assert(items(none@) =~= Seq::<ItemView>::empty());
        return none;
    }
    let entry = &path_entries[path_index];
    if (past_prev && cursor.loc.end <= entry.loc.start) || entry.loc.contains(&cursor.loc) {
        name_chain_entry_completions(symbols, cursor, info, &prev_kind, chain_kind, inside_use)
    } else {
        match next_name_chain_component_kind(symbols, info, &prev_kind, &entry.name) {
            Some(next_kind) => completions_for_name_chain_entry(
                symbols,
                cursor,
                info,
                ChainComponentInfo::new(entry.loc, next_kind),
                chain_kind,
                path_entries,
                path_index + 1,
                colon_colon_triggered,
                inside_use,
            ),
            None => {
                let none: Vec<CompletionItem> = Vec::new();
                assert(items(none@) =~= Seq::<ItemView>::empty());
                none
            },
        }
    }
}

/// The names of the primitive types.
pub open spec fn primitive_names() -> Seq<Seq<char>> {
    seq![
        "address"@,
        "bool"@,
        "signer"@,
        "u8"@,
        "u16"@,
        "u32"@,
        "u64"@,
        "u128"@,
        "u256"@,
        "vector"@,
    ]
}

/// Candidates for the primitive types.
pub fn primitive_type_completions() -> (r: Vec<CompletionItem>)
    ensures
        items(r@) == label_items(primitive_names(), CompletionItemKind::Keyword),
{
    let labels = vec![
        String::from_str("address"),
        String::from_str("bool"),
        String::from_str("signer"),
        String::from_str("u8"),
        String::from_str("u16"),
        String::from_str("u32"),
        String::from_str("u64"),
        String::from_str("u128"),
        String::from_str("u256"),
        String::from_str("vector"),
    ];
    assert(texts(labels@) =~= primitive_names());
    label_completions(&labels, CompletionItemKind::Keyword)
}

/// The candidates offered with the cursor on the leading segment: every
/// package, and for a plain name also the aliased modules and members and, in
/// type position, primitive types and type parameters.
pub open spec fn leading_items(
    symbols: Symbols,
    cursor_module: Option<ModuleId>,
    info: AliasView,
    lead: LeadingKey,
    chain_kind: ChainCompletionKind,
) -> Seq<ItemView> {
    label_items(package_labels(symbols, info), CompletionItemKind::Unit) + if lead is Name {
        label_items(names(info.modules), CompletionItemKind::Module) + alias_member_items(
            symbols,
            cursor_module,
            info.members,
            chain_kind,
        ) + if chain_kind is Type {
            label_items(primitive_names(), CompletionItemKind::Keyword) + label_items(
                texts(info.type_params),
                CompletionItemKind::TypeParameter,
            )
        } else {
            Seq::empty()
        }
    } else {
        Seq::empty()
    }
}

/// The candidates for the chain that encloses the cursor, if any.
pub open spec fn chain_items(symbols: Symbols, cursor: CursorContext, triggered: bool) -> Seq<
    ItemView,
> {
    match cursor.access_chain {
        None => Seq::empty(),
        Some(chain) => {
            let info = aliases_at(symbols.path_autocomplete_info@, chain.leading_loc);
            if chain.leading_loc.holds(cursor.loc) {
                leading_items(symbols, cursor.module, info, chain.leading_name@, chain.kind)
            } else {
                match first_kind(symbols, info, chain.leading_name@) {
                    Some(k) => walk(
                        symbols,
                        cursor.module,
                        cursor.loc,
                        info,
                        chain.leading_loc,
                        k,
                        chain.kind,
                        chain.entries@,
                        0,
                        triggered,
                        chain.inside_use,
                    ),
                    None => Seq::empty(),
                }
            }
        },
    }
}


fn leading_name_completions(
    symbols: &Symbols,
    cursor: &CursorContext,
    info: &AliasAutocompleteInfo,
    leading_name: &LeadingName,
    chain_kind: ChainCompletionKind,
) -> (r: Vec<CompletionItem>)
    ensures
        items(r@) == leading_items(*symbols, cursor.module, info@, leading_name@, chain_kind),
{
    let mut completions = label_completions(&all_packages(symbols, info), CompletionItemKind::Unit);
    if let LeadingName::Name(_) = leading_name {
        append_items(&mut completions, name_completions(&info.modules, CompletionItemKind::Module));
        append_items(
            &mut completions,
            all_single_name_member_completions(symbols, cursor, &info.members, chain_kind),
        );
        if let ChainCompletionKind::Type = chain_kind {
            append_items(&mut completions, primitive_type_completions());
            append_items(
                &mut completions,
                label_completions(&info.type_params, CompletionItemKind::TypeParameter),
            );
        }
        assert(items(completions@) =~= leading_items(
            *symbols,
            cursor.module,
            info@,
            leading_name@,
            chain_kind,
        ));
    } else {
        assert(items(completions@) =~= leading_items(
            *symbols,
            cursor.module,
            info@,
            leading_name@,
            chain_kind,
        ));
    }
    completions
}

/// Handles completion along the name chain that encloses the cursor. The
/// leading segment is classified first (a package, module or member), and the
/// walk then goes down the chain to the segment under the cursor. The flag is
/// set whenever a chain encloses the cursor, even where nothing is offered.
pub fn name_chain_completions(
    symbols: &Symbols,
    cursor: &CursorContext,
    colon_colon_triggered: bool,
) -> (r: (Vec<CompletionItem>, bool))
    requires
        symbols.wf(),
    ensures
        items(r.0@) == chain_items(*symbols, *cursor, colon_colon_triggered),
        r.1 == cursor.access_chain is Some,
{
    let none: Vec<CompletionItem> = Vec::new();
    assert(items(none@) =~= Seq::<ItemView>::empty());
    let chain = match &cursor.access_chain {
        Some(c) => c,
        None => {
            return (none, false);
        },
    };
    let empty = AliasAutocompleteInfo::new();
    let info = match alias_info_at(symbols, &chain.leading_loc) {
        Some(i) => &symbols.path_autocomplete_info[i].1,
        None => &empty,
    };
    if chain.leading_loc.contains(&cursor.loc) {
        let completions = leading_name_completions(
            symbols,
            cursor,
            info,
            &chain.leading_name,
            chain.kind,
        );
        return (completions, true);
    }
    match first_name_chain_component_kind(symbols, info, &chain.leading_name) {
        Some(next_kind) => {
            let completions = completions_for_name_chain_entry(
                symbols,
                cursor,
                info,
                ChainComponentInfo::new(chain.leading_loc, next_kind),
                chain.kind,
                &chain.entries,
                0,
                colon_colon_triggered,
                chain.inside_use,
            );
            (completions, true)
        },
        None => (none, true),
    }
}

} // verus!
