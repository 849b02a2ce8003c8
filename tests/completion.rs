use name_chain::chain::name_chain_completions;
use name_chain::members::{datatype_completion, module_member_completions};
use name_chain::model::{
    AccountAddress, Address, AddressAlias, AliasAutocompleteInfo, ChainCompletionKind, ChainInfo,
    CompletionItem, CompletionItemKind, ConstantDef, CursorContext, EnumDef, FunctionDef,
    LeadingName, MemberAlias, ModuleAlias, ModuleDefs, ModuleId, ModuleUse, Segment, Span,
    StructDef, Symbols, UseDecl, VariantDef, Visibility,
};
use name_chain::packages::all_packages;
use name_chain::text::{padded_radix_text, radix_text};
use name_chain::use_decl::use_decl_completions;

fn span(start: u64, end: u64) -> Span {
    Span { start, end }
}

fn addr(low: u128) -> AccountAddress {
    AccountAddress { high: 0, low }
}

fn mod_id(pkg: &str, value: u128, name: &str) -> ModuleId {
    ModuleId {
        address: Address::Numerical { name: Some(pkg.to_string()), value: addr(value) },
        module: name.to_string(),
    }
}

fn strings(v: &[&str]) -> Vec<String> {
    v.iter().map(|s| s.to_string()).collect()
}

fn func(name: &str, visibility: Visibility, params: &[&str]) -> FunctionDef {
    FunctionDef { name: name.to_string(), visibility, is_macro: false, params: strings(params) }
}

/// Package `P` at `0x1` with module `m`: public `f(x)`, struct `S { a, b, c }`.
fn sample_module() -> ModuleDefs {
    ModuleDefs {
        ident: mod_id("P", 1, "m"),
        functions: vec![func("f", Visibility::Public, &["x"])],
        structs: vec![StructDef {
            name: "S".to_string(),
            fields: strings(&["a", "b", "c"]),
            positional: false,
        }],
        enums: vec![],
        constants: vec![],
    }
}

fn aliases_of_m() -> AliasAutocompleteInfo {
    AliasAutocompleteInfo {
        addresses: vec![],
        modules: vec![ModuleAlias { alias: "m".to_string(), module: mod_id("P", 1, "m") }],
        members: vec![],
        type_params: vec![],
    }
}

fn chain_cursor(
    module: Option<ModuleId>,
    leading: LeadingName,
    leading_loc: Span,
    entries: Vec<Segment>,
    at: Span,
    kind: ChainCompletionKind,
) -> CursorContext {
    CursorContext {
        module,
        loc: at,
        access_chain: Some(ChainInfo { leading_name: leading, leading_loc, entries, kind, inside_use: false }),
        use_decl: None,
    }
}

fn summary(items: &[CompletionItem]) -> Vec<(String, CompletionItemKind, Option<String>)> {
    items.iter().map(|c| (c.label.clone(), c.kind, c.snippet.clone())).collect()
}

fn labels(items: &[CompletionItem]) -> Vec<String> {
    items.iter().map(|c| c.label.clone()).collect()
}

fn sample_symbols() -> Symbols {
    Symbols { modules: vec![sample_module()], path_autocomplete_info: vec![(span(10, 11), aliases_of_m())] }
}

#[test]
fn module_members_from_another_module() {
    let symbols = sample_symbols();
    let cursor = chain_cursor(
        Some(mod_id("Q", 2, "other")),
        LeadingName::Name("m".to_string()),
        span(10, 11),
        vec![],
        span(13, 13),
        ChainCompletionKind::All,
    );
    let (items, finalized) = name_chain_completions(&symbols, &cursor, true);
    assert!(finalized);
    assert_eq!(
        summary(&items),
        vec![
            ("f".to_string(), CompletionItemKind::Function, Some("f($1)".to_string())),
            ("S".to_string(), CompletionItemKind::Struct, None),
        ]
    );
}

#[test]
fn module_members_from_the_same_module() {
    let symbols = sample_symbols();
    let cursor = chain_cursor(
        Some(mod_id("P", 1, "m")),
        LeadingName::Name("m".to_string()),
        span(10, 11),
        vec![],
        span(13, 13),
        ChainCompletionKind::All,
    );
    let (items, finalized) = name_chain_completions(&symbols, &cursor, true);
    assert!(finalized);
    assert_eq!(
        summary(&items),
        vec![
            ("f".to_string(), CompletionItemKind::Function, Some("f($1)".to_string())),
            ("S".to_string(), CompletionItemKind::Struct, None),
            (
                "S{..}".to_string(),
                CompletionItemKind::Struct,
                Some("S {\n\t${1:a},\n\t${2:b},\n\t${3:c},\n}".to_string())
            ),
        ]
    );
}

#[test]
fn import_cursor_on_address_offers_packages_only() {
    let symbols = sample_symbols();
    let cursor = CursorContext {
        module: Some(mod_id("Q", 2, "other")),
        loc: span(5, 5),
        access_chain: None,
        use_decl: Some(UseDecl::ModuleUse {
            address: LeadingName::AnonymousAddress(addr(1)),
            address_loc: span(4, 7),
            module: Segment { name: "m".to_string(), loc: span(9, 10) },
            module_use: ModuleUse::Members(vec![Segment { name: "f".to_string(), loc: span(13, 14) }]),
        }),
    };
    let (items, finalized) = use_decl_completions(&symbols, &cursor);
    assert!(finalized);
    assert_eq!(labels(&items), strings(&["0x1", "P"]));
    assert!(items.iter().all(|c| c.kind == CompletionItemKind::Unit));
}

#[test]
fn no_chain_means_no_completion_and_no_finalization() {
    let symbols = sample_symbols();
    let cursor = CursorContext { module: None, loc: span(1, 1), access_chain: None, use_decl: None };
    let (items, finalized) = name_chain_completions(&symbols, &cursor, true);
    assert!(items.is_empty());
    assert!(!finalized);
    let (items, finalized) = use_decl_completions(&symbols, &cursor);
    assert!(items.is_empty());
    assert!(!finalized);
}

#[test]
fn unresolved_chain_is_still_finalized() {
    let symbols = sample_symbols();
    let cursor = chain_cursor(
        None,
        LeadingName::Name("zzz".to_string()),
        span(20, 23),
        vec![],
        span(25, 25),
        ChainCompletionKind::All,
    );
    let (items, finalized) = name_chain_completions(&symbols, &cursor, true);
    assert!(items.is_empty());
    assert!(finalized);
}

#[test]
fn repeated_calls_give_identical_output() {
    let symbols = sample_symbols();
    let cursor = chain_cursor(
        Some(mod_id("P", 1, "m")),
        LeadingName::Name("m".to_string()),
        span(10, 11),
        vec![],
        span(13, 13),
        ChainCompletionKind::All,
    );
    let first = name_chain_completions(&symbols, &cursor, true);
    let second = name_chain_completions(&symbols, &cursor, true);
    assert_eq!(summary(&first.0), summary(&second.0));
    assert_eq!(first.1, second.1);
}

fn visibility_module() -> ModuleDefs {
    ModuleDefs {
        ident: mod_id("P", 1, "m"),
        functions: vec![
            func("package_fn", Visibility::PackageVisible, &["a", "b"]),
            func("private_fn", Visibility::ModulePrivate, &[]),
            func("public_fn", Visibility::Public, &[]),
        ],
        structs: vec![],
        enums: vec![],
        constants: vec![ConstantDef { name: "LIMIT".to_string() }],
    }
}

fn member_labels(requester: Option<ModuleId>, kind: ChainCompletionKind) -> Vec<String> {
    let symbols = Symbols { modules: vec![visibility_module()], path_autocomplete_info: vec![] };
    let cursor = CursorContext { module: requester, loc: span(0, 0), access_chain: None, use_decl: None };
    labels(&module_member_completions(&symbols, &cursor, &mod_id("P", 1, "m"), kind, false))
}

#[test]
fn visibility_from_another_package() {
    assert_eq!(member_labels(Some(mod_id("Q", 2, "n")), ChainCompletionKind::All), strings(&["public_fn"]));
    assert_eq!(member_labels(None, ChainCompletionKind::All), strings(&["public_fn"]));
}

#[test]
fn visibility_from_the_same_package() {
    assert_eq!(
        member_labels(Some(mod_id("P", 1, "n")), ChainCompletionKind::All),
        strings(&["package_fn", "public_fn"])
    );
}

#[test]
fn visibility_from_the_same_module() {
    assert_eq!(
        member_labels(Some(mod_id("P", 1, "m")), ChainCompletionKind::All),
        strings(&["package_fn", "private_fn", "public_fn", "LIMIT"])
    );
}

#[test]
fn address_alias_does_not_change_module_identity() {
    let requester = ModuleId {
        address: Address::Numerical { name: None, value: addr(1) },
        module: "m".to_string(),
    };
    assert_eq!(
        member_labels(Some(requester), ChainCompletionKind::All),
        strings(&["package_fn", "private_fn", "public_fn", "LIMIT"])
    );
}

#[test]
fn purpose_filters_members() {
    assert_eq!(member_labels(Some(mod_id("P", 1, "m")), ChainCompletionKind::Type), Vec::<String>::new());
    assert_eq!(
        member_labels(Some(mod_id("P", 1, "m")), ChainCompletionKind::Function),
        strings(&["package_fn", "private_fn", "public_fn"])
    );
}

#[test]
fn call_template_numbers_arguments() {
    let symbols = Symbols { modules: vec![visibility_module()], path_autocomplete_info: vec![] };
    let cursor = CursorContext { module: Some(mod_id("P", 1, "m")), loc: span(0, 0), access_chain: None, use_decl: None };
    let items = module_member_completions(&symbols, &cursor, &mod_id("P", 1, "m"), ChainCompletionKind::Function, false);
    assert_eq!(items[0].snippet, Some("package_fn($1, $2)".to_string()));
    assert_eq!(items[2].snippet, Some("public_fn()".to_string()));
    let inside_use = module_member_completions(&symbols, &cursor, &mod_id("P", 1, "m"), ChainCompletionKind::Function, true);
    assert_eq!(inside_use[0].snippet, None);
}

fn cursor_in(module: ModuleId) -> CursorContext {
    CursorContext { module: Some(module), loc: span(0, 0), access_chain: None, use_decl: None }
}

#[test]
fn two_named_fields_stay_on_one_line() {
    let items = datatype_completion(
        &cursor_in(mod_id("P", 1, "m")),
        &mod_id("P", 1, "m"),
        &"Pair".to_string(),
        CompletionItemKind::Struct,
        &strings(&["x", "y"]),
        true,
    );
    assert_eq!(items.len(), 2);
    assert_eq!(items[1].label, "Pair{..}");
    assert_eq!(items[1].snippet, Some("Pair { ${1:x}, ${2:y} }".to_string()));
}

#[test]
fn three_named_fields_spread_over_lines() {
    let items = datatype_completion(
        &cursor_in(mod_id("P", 1, "m")),
        &mod_id("P", 1, "m"),
        &"T".to_string(),
        CompletionItemKind::Struct,
        &strings(&["x", "y", "z"]),
        true,
    );
    let snippet = items[1].snippet.clone().unwrap();
    assert_eq!(snippet, "T {\n\t${1:x},\n\t${2:y},\n\t${3:z},\n}");
    assert!(snippet.contains('\n'));
}

#[test]
fn positional_fields_stay_on_one_line() {
    let items = datatype_completion(
        &cursor_in(mod_id("P", 1, "m")),
        &mod_id("P", 1, "m"),
        &"Tup".to_string(),
        CompletionItemKind::Struct,
        &strings(&["0", "1", "2", "3"]),
        false,
    );
    assert_eq!(items[1].label, "Tup(..)");
    assert_eq!(items[1].snippet, Some("Tup(${1}, ${2}, ${3}, ${4})".to_string()));
}

#[test]
fn no_fields_gives_bare_name_only() {
    let items = datatype_completion(
        &cursor_in(mod_id("P", 1, "m")),
        &mod_id("P", 1, "m"),
        &"Unit".to_string(),
        CompletionItemKind::Struct,
        &vec![],
        true,
    );
    assert_eq!(summary(&items), vec![("Unit".to_string(), CompletionItemKind::Struct, None)]);
}

#[test]
fn fields_hidden_outside_declaring_module() {
    let items = datatype_completion(
        &cursor_in(mod_id("P", 1, "n")),
        &mod_id("P", 1, "m"),
        &"S".to_string(),
        CompletionItemKind::Struct,
        &strings(&["a"]),
        true,
    );
    assert_eq!(summary(&items), vec![("S".to_string(), CompletionItemKind::Struct, None)]);
}

#[test]
fn ten_fields_count_placeholders_in_decimal() {
    let fields: Vec<String> = (0..10).map(|i| format!("f{}", i)).collect();
    let items = datatype_completion(
        &cursor_in(mod_id("P", 1, "m")),
        &mod_id("P", 1, "m"),
        &"Big".to_string(),
        CompletionItemKind::Struct,
        &fields,
        false,
    );
    let snippet = items[1].snippet.clone().unwrap();
    assert!(snippet.ends_with("${9}, ${10})"));
}

#[test]
fn digits_render_in_both_bases() {
    assert_eq!(radix_text(0, 10), "0");
    assert_eq!(radix_text(1234, 10), "1234");
    assert_eq!(radix_text(0xcafe, 16), "cafe");
    assert_eq!(padded_radix_text(0xab, 16, 4), "00ab");
}

#[test]
fn address_labels() {
    assert_eq!(addr(0).label(), "0x0");
    assert_eq!(addr(1).label(), "0x1");
    assert_eq!(addr(0xCAFE).label(), "0xcafe");
    let wide = AccountAddress { high: 0x2, low: 0x5 };
    assert_eq!(wide.label(), format!("0x2{}5", "0".repeat(31)));
}

#[test]
fn packages_are_listed_once() {
    let mut second = sample_module();
    second.ident = mod_id("P", 1, "k");
    let symbols = Symbols { modules: vec![sample_module(), second], path_autocomplete_info: vec![] };
    let info = AliasAutocompleteInfo {
        addresses: vec![AddressAlias { name: "std".to_string(), value: addr(1) }],
        modules: vec![],
        members: vec![],
        type_params: vec![],
    };
    assert_eq!(all_packages(&symbols, &info), strings(&["0x1", "P", "std"]));
}

#[test]
fn cursor_on_leading_name_offers_everything() {
    let mut info = aliases_of_m();
    info.members.push(MemberAlias { alias: "g".to_string(), module: mod_id("P", 1, "m"), member: "f".to_string() });
    info.type_params.push("T".to_string());
    let symbols = Symbols { modules: vec![sample_module()], path_autocomplete_info: vec![(span(10, 11), info)] };
    let cursor = chain_cursor(
        None,
        LeadingName::Name("m".to_string()),
        span(10, 11),
        vec![],
        span(10, 11),
        ChainCompletionKind::Type,
    );
    let (items, _) = name_chain_completions(&symbols, &cursor, false);
    let mut expected = strings(&["0x1", "P", "m"]);
    expected.extend(strings(&["address", "bool", "signer", "u8", "u16", "u32", "u64", "u128", "u256", "vector", "T"]));
    assert_eq!(labels(&items), expected);
    assert_eq!(items.last().unwrap().kind, CompletionItemKind::TypeParameter);

    let all = chain_cursor(
        None,
        LeadingName::Name("m".to_string()),
        span(10, 11),
        vec![],
        span(10, 11),
        ChainCompletionKind::All,
    );
    let (items, _) = name_chain_completions(&symbols, &all, false);
    assert_eq!(summary(&items)[3], ("g".to_string(), CompletionItemKind::Function, Some("g($1)".to_string())));
}

#[test]
fn cursor_on_address_offers_packages_only() {
    let symbols = sample_symbols();
    let cursor = chain_cursor(
        None,
        LeadingName::AnonymousAddress(addr(1)),
        span(0, 3),
        vec![],
        span(1, 1),
        ChainCompletionKind::All,
    );
    let (items, _) = name_chain_completions(&symbols, &cursor, false);
    assert_eq!(labels(&items), strings(&["0x1", "P"]));
}

#[test]
fn address_chain_offers_modules_after_separator() {
    let symbols = sample_symbols();
    let cursor = chain_cursor(
        None,
        LeadingName::AnonymousAddress(addr(1)),
        span(0, 3),
        vec![],
        span(5, 5),
        ChainCompletionKind::All,
    );
    let (items, _) = name_chain_completions(&symbols, &cursor, true);
    assert_eq!(summary(&items), vec![("m".to_string(), CompletionItemKind::Module, None)]);
    let (items, _) = name_chain_completions(&symbols, &cursor, false);
    assert!(items.is_empty());
}

#[test]
fn global_name_resolves_only_to_package() {
    let mut info = aliases_of_m();
    info.modules.push(ModuleAlias { alias: "P".to_string(), module: mod_id("P", 1, "m") });
    let symbols = Symbols { modules: vec![sample_module()], path_autocomplete_info: vec![(span(0, 3), info)] };
    let cursor = chain_cursor(
        None,
        LeadingName::GlobalAddress("P".to_string()),
        span(0, 3),
        vec![],
        span(5, 5),
        ChainCompletionKind::All,
    );
    let (items, _) = name_chain_completions(&symbols, &cursor, true);
    assert_eq!(summary(&items), vec![("m".to_string(), CompletionItemKind::Module, None)]);
}

#[test]
fn cursor_on_module_segment_offers_modules() {
    let symbols = sample_symbols();
    let cursor = chain_cursor(
        None,
        LeadingName::Name("P".to_string()),
        span(0, 1),
        vec![Segment { name: "m".to_string(), loc: span(3, 4) }],
        span(3, 4),
        ChainCompletionKind::All,
    );
    let (items, _) = name_chain_completions(&symbols, &cursor, false);
    assert_eq!(labels(&items), strings(&["m"]));
}

fn enum_module() -> ModuleDefs {
    ModuleDefs {
        ident: mod_id("P", 1, "e"),
        functions: vec![],
        structs: vec![],
        enums: vec![EnumDef {
            name: "Shape".to_string(),
            variants: vec![
                VariantDef { name: "Dot".to_string(), fields: vec![], positional: false },
                VariantDef { name: "Line".to_string(), fields: strings(&["0"]), positional: true },
            ],
        }],
        constants: vec![],
    }
}

#[test]
fn variants_after_enum_segment() {
    let symbols = Symbols { modules: vec![enum_module()], path_autocomplete_info: vec![] };
    let cursor = chain_cursor(
        Some(mod_id("P", 1, "e")),
        LeadingName::Name("P".to_string()),
        span(0, 1),
        vec![
            Segment { name: "e".to_string(), loc: span(3, 4) },
            Segment { name: "Shape".to_string(), loc: span(6, 11) },
        ],
        span(13, 13),
        ChainCompletionKind::All,
    );
    let (items, _) = name_chain_completions(&symbols, &cursor, true);
    assert_eq!(
        summary(&items),
        vec![
            ("Dot".to_string(), CompletionItemKind::EnumMember, None),
            ("Line".to_string(), CompletionItemKind::EnumMember, None),
            ("Line(..)".to_string(), CompletionItemKind::EnumMember, Some("Line(${1})".to_string())),
        ]
    );
}

#[test]
fn unknown_member_ends_the_walk() {
    let symbols = Symbols { modules: vec![enum_module()], path_autocomplete_info: vec![] };
    let cursor = chain_cursor(
        None,
        LeadingName::Name("P".to_string()),
        span(0, 1),
        vec![
            Segment { name: "e".to_string(), loc: span(3, 4) },
            Segment { name: "Nope".to_string(), loc: span(6, 10) },
            Segment { name: "X".to_string(), loc: span(12, 13) },
        ],
        span(15, 15),
        ChainCompletionKind::All,
    );
    let (items, finalized) = name_chain_completions(&symbols, &cursor, true);
    assert!(items.is_empty());
    assert!(finalized);
}

#[test]
fn nested_import_offers_modules_and_members() {
    let symbols = sample_symbols();
    let decl = |at: Span| CursorContext {
        module: Some(mod_id("P", 1, "m")),
        loc: at,
        access_chain: None,
        use_decl: Some(UseDecl::NestedModuleUses {
            package: LeadingName::Name("P".to_string()),
            package_loc: span(4, 5),
            uses: vec![(
                Segment { name: "m".to_string(), loc: span(8, 9) },
                ModuleUse::Members(vec![Segment { name: "f".to_string(), loc: span(12, 13) }]),
            )],
        }),
    };
    let (items, _) = use_decl_completions(&symbols, &decl(span(7, 7)));
    assert_eq!(labels(&items), strings(&["m"]));
    let (items, _) = use_decl_completions(&symbols, &decl(span(8, 9)));
    assert_eq!(labels(&items), strings(&["m"]));
    let (items, _) = use_decl_completions(&symbols, &decl(span(12, 13)));
    assert_eq!(labels(&items), strings(&["f", "S", "S{..}"]));
    assert_eq!(items[0].snippet, None);
    let (items, _) = use_decl_completions(&symbols, &decl(span(20, 20)));
    assert!(items.is_empty());
}

#[test]
fn partial_imports() {
    let symbols = sample_symbols();
    let partial = |at: Span, colon: Option<Span>| CursorContext {
        module: None,
        loc: at,
        access_chain: None,
        use_decl: Some(UseDecl::Partial { package: LeadingName::Name("P".to_string()), package_loc: span(4, 5), colon_colon: colon }),
    };
    let (items, _) = use_decl_completions(&symbols, &partial(span(4, 5), None));
    assert_eq!(labels(&items), strings(&["0x1", "P"]));
    let (items, _) = use_decl_completions(&symbols, &partial(span(7, 7), Some(span(5, 7))));
    assert_eq!(labels(&items), strings(&["m"]));
    let (items, finalized) = use_decl_completions(&symbols, &partial(span(7, 7), None));
    assert!(items.is_empty());
    assert!(finalized);

    let module_partial = CursorContext {
        module: None,
        loc: span(12, 12),
        access_chain: None,
        use_decl: Some(UseDecl::ModuleUse {
            address: LeadingName::Name("P".to_string()),
            address_loc: span(4, 5),
            module: Segment { name: "m".to_string(), loc: span(7, 8) },
            module_use: ModuleUse::Partial { colon_colon: Some(span(8, 10)) },
        }),
    };
    let (items, _) = use_decl_completions(&symbols, &module_partial);
    assert_eq!(labels(&items), strings(&["f", "S"]));
}

#[test]
fn function_alias_import_is_left_to_chains() {
    let symbols = sample_symbols();
    let cursor = CursorContext { module: None, loc: span(3, 3), access_chain: None, use_decl: Some(UseDecl::Fun) };
    let (items, finalized) = use_decl_completions(&symbols, &cursor);
    assert!(items.is_empty());
    assert!(finalized);
}

#[test]
fn modules_of_a_package_come_sorted_once() {
    let mut b = sample_module();
    b.ident = mod_id("P", 1, "b");
    let mut a = sample_module();
    a.ident = mod_id("P", 1, "a");
    let info = AliasAutocompleteInfo {
        addresses: vec![],
        modules: vec![ModuleAlias { alias: "b".to_string(), module: mod_id("P", 1, "b") }],
        members: vec![],
        type_params: vec![],
    };
    let symbols = Symbols { modules: vec![b, a], path_autocomplete_info: vec![(span(0, 1), info)] };
    let cursor = chain_cursor(
        None,
        LeadingName::Name("P".to_string()),
        span(0, 1),
        vec![],
        span(3, 3),
        ChainCompletionKind::All,
    );
    let (items, _) = name_chain_completions(&symbols, &cursor, true);
    assert_eq!(labels(&items), strings(&["a", "b"]));
}

#[test]
fn validity_requires_name_keyed_tables() {
    assert!(sample_symbols().is_well_formed());
    let mut unsorted = visibility_module();
    unsorted.functions.swap(0, 2);
    assert!(!unsorted.is_well_formed());
    let mut twice = visibility_module();
    twice.functions.push(func("public_fn", Visibility::Public, &[]));
    assert!(!twice.is_well_formed());
    assert!(visibility_module().is_well_formed());
}

#[test]
fn modules_of_one_name_at_two_addresses_are_both_offered() {
    let mut first = sample_module();
    first.ident = mod_id("P", 2, "m");
    let second = sample_module();
    let symbols = Symbols { modules: vec![first, second], path_autocomplete_info: vec![] };
    let cursor = chain_cursor(
        None,
        LeadingName::Name("P".to_string()),
        span(0, 1),
        vec![],
        span(3, 3),
        ChainCompletionKind::All,
    );
    let (items, _) = name_chain_completions(&symbols, &cursor, true);
    assert_eq!(labels(&items), strings(&["m", "m"]));
}

#[test]
fn package_modules_follow_address_then_name() {
    let named = ModuleDefs {
        ident: ModuleId { address: Address::NamedUnassigned("P".to_string()), module: "a".to_string() },
        functions: vec![],
        structs: vec![],
        enums: vec![],
        constants: vec![],
    };
    let mut numeric = sample_module();
    numeric.ident = mod_id("P", 1, "z");
    let symbols = Symbols { modules: vec![named, numeric], path_autocomplete_info: vec![] };
    let cursor = chain_cursor(
        None,
        LeadingName::Name("P".to_string()),
        span(0, 1),
        vec![],
        span(3, 3),
        ChainCompletionKind::All,
    );
    let (items, _) = name_chain_completions(&symbols, &cursor, true);
    assert_eq!(labels(&items), strings(&["z", "a"]));
}

#[test]
fn member_aliases_must_be_keyed_by_alias() {
    let mut info = aliases_of_m();
    info.members.push(MemberAlias { alias: "g".to_string(), module: mod_id("P", 1, "m"), member: "f".to_string() });
    assert!(info.is_well_formed());
    info.members.push(MemberAlias { alias: "g".to_string(), module: mod_id("P", 1, "m"), member: "S".to_string() });
    assert!(!info.is_well_formed());
}
