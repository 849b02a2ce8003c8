//! Completion inside import statements: packages, then modules, then members.
use crate::members::{module_member_completions, module_member_items};
use crate::model::{
    append_items, empty_aliases, find_named, first_at, items, label_completions, label_items, lemma_first_at,
    name_completions, names, AliasAutocompleteInfo, AliasView, ChainCompletionKind,
    CompletionItem, CompletionItemKind, CursorContext, ItemView, LeadingKey, LeadingName,
    ModuleId, ModuleUse, Segment, Span, Symbols, UseDecl,
};
use crate::packages::{all_packages, package_labels, package_modules, pkg_mod_identifiers};
use vstd::prelude::*;

verus! {

/// The module candidates of package `package`.
pub open spec fn package_module_items(symbols: Symbols, info: AliasView, package: LeadingKey) -> Seq<
    ItemView,
> {
    label_items(names(package_modules(symbols, info, package)), CompletionItemKind::Module)
}

/// The candidates inside the tail of an import of module `mod_name` of
/// package `package`: every member of that module, where the cursor is before
/// the first member, on a member, or past the `::` of an unfinished tail.
pub open spec fn module_use_items(
    symbols: Symbols,
    cursor_module: Option<ModuleId>,
    cursor: Span,
    info: AliasView,
    mod_use: ModuleUse,
    package: LeadingKey,
    mod_name: Segment,
) -> Seq<ItemView> {
    let mods = package_modules(symbols, info, package);
    let i = first_at(names(mods), mod_name.name@);
    if i < 0 {
        Seq::empty()
    } else {
        let here = module_member_items(
            symbols,
            cursor_module,
            mods[i]@,
            ChainCompletionKind::All,
            true,
        );
        match mod_use {
            ModuleUse::Module => Seq::empty(),
            ModuleUse::Members(members) => if members@.len() > 0 && cursor.start
                > mod_name.loc.end && cursor.end <= members@[0].loc.start {
                here
            } else if exists|j: int| 0 <= j < members@.len() && #[trigger] members@[j].loc.holds(cursor) {
                here
            } else {
                Seq::empty()
            },
            ModuleUse::Partial { colon_colon } => if colon_colon is Some && cursor.start
                >= colon_colon.unwrap().start {
                here
            } else {
                Seq::empty()
            },
        }
    }
}

/// The candidates of a grouped import, module by module up to the one that
/// holds the cursor.
pub open spec fn nested_use_items(
    symbols: Symbols,
    cursor_module: Option<ModuleId>,
    cursor: Span,
    info: AliasView,
    package: LeadingKey,
    uses: Seq<(Segment, ModuleUse)>,
) -> Seq<ItemView>
    decreases uses.len(),
{
    if uses.len() == 0 {
        Seq::empty()
    } else if uses[0].0.loc.holds(cursor) {
        package_module_items(symbols, info, package)
    } else {
        module_use_items(symbols, cursor_module, cursor, info, uses[0].1, package, uses[0].0)
            + nested_use_items(symbols, cursor_module, cursor, info, package, uses.drop_first())
    }
}

/// The candidates for the import statement that encloses the cursor, if any.
pub open spec fn use_items(symbols: Symbols, cursor: CursorContext) -> Seq<ItemView> {
    let info = empty_aliases();
    let pkgs = label_items(package_labels(symbols, info), CompletionItemKind::Unit);
    let at = cursor.loc;
    match cursor.use_decl {
        None => Seq::empty(),
        Some(UseDecl::ModuleUse { address, address_loc, module, module_use }) => {
            if address_loc.holds(at) {
                pkgs
            } else if at.start > address_loc.end && at.end <= module.loc.end {
                package_module_items(symbols, info, address@)
            } else {
                module_use_items(symbols, cursor.module, at, info, module_use, address@, module)
            }
        },
        Some(UseDecl::NestedModuleUses { package, package_loc, uses }) => {
            if package_loc.holds(at) {
                pkgs
            } else if uses@.len() > 0 && at.start > package_loc.end && at.end
                <= uses@[0].0.loc.start {
                package_module_items(symbols, info, package@)
            } else {
                nested_use_items(symbols, cursor.module, at, info, package@, uses@)
            }
        },
        Some(UseDecl::Fun) => Seq::empty(),
        Some(UseDecl::Partial { package, package_loc, colon_colon }) => (if package_loc.holds(at) {
            pkgs
        } else {
            Seq::empty()
        }) + (if colon_colon is Some && at.start >= colon_colon.unwrap().start {
            package_module_items(symbols, info, package@)
        } else {
            Seq::empty()
        }),
    }
}

fn empty_items() -> (r: Vec<CompletionItem>)
    ensures
        items(r@) == Seq::<ItemView>::empty(),
{
    let r: Vec<CompletionItem> = Vec::new();
    assert(items(r@) =~= Seq::<ItemView>::empty());
    r
}

fn package_module_completions(
    symbols: &Symbols,
    info: &AliasAutocompleteInfo,
    package: &LeadingName,
) -> (r: Vec<CompletionItem>)
    ensures
        items(r@) == package_module_items(*symbols, info@, package@),
{
    let mods = pkg_mod_identifiers(symbols, info, package);
    name_completions(&mods, CompletionItemKind::Module)
}

/// Computes completions inside the tail of a module import.
#[verifier::loop_isolation(false)]
pub fn module_use_completions(
    symbols: &Symbols,
    cursor: &CursorContext,
    info: &AliasAutocompleteInfo,
    mod_use: &ModuleUse,
    package: &LeadingName,
    mod_name: &Segment,
) -> (r: Vec<CompletionItem>)
    ensures
        items(r@) == module_use_items(
            *symbols,
            cursor.module,
            cursor.loc,
            info@,
            *mod_use,
            package@,
            *mod_name,
        ),
{
    let mods = pkg_mod_identifiers(symbols, info, package);
    proof {
        lemma_first_at(names(mods@), mod_name.name@);
    }
    let i = match find_named(&mods, &mod_name.name) {
        Some(i) => i,
        None => {
            return empty_items();
        },
    };
    let mod_ident = &mods[i];
    match mod_use {
        ModuleUse::Module => empty_items(),
        ModuleUse::Members(members) => {
            if members.len() > 0 && cursor.loc.start > mod_name.loc.end && cursor.loc.end
                <= members[0].loc.start {
                return module_member_completions(
                    symbols,
                    cursor,
                    mod_ident,
                    ChainCompletionKind::All,
                    true,
                );
            }
            let ghost target = module_use_items(
                *symbols,
                cursor.module,
                cursor.loc,
                info@,
                *mod_use,
                package@,
                *mod_name,
            );
            let ghost here = module_member_items(
                *symbols,
                cursor.module,
                mod_ident@,
                ChainCompletionKind::All,
                true,
            );
            let mut j: usize = 0;
            while j < members.len()
                invariant
                    j <= members.len(),
                    (exists|k: int| 0 <= k < members@.len() && #[trigger] members@[k].loc.holds(cursor.loc)) ==> target == here,
                    !(exists|k: int| 0 <= k < members@.len() && #[trigger] members@[k].loc.holds(cursor.loc)) ==> target == Seq::<ItemView>::empty(),
                    forall|k: int| 0 <= k < j ==> !(#[trigger] members@[k].loc.holds(cursor.loc)),
                decreases members.len() - j,
            {
                if members[j].loc.contains(&cursor.loc) {
                    assert(members@[j as int].loc.holds(cursor.loc));
                    return module_member_completions(
                        symbols,
                        cursor,
                        mod_ident,
                        ChainCompletionKind::All,
                        true,
                    );
                }
                j = j + 1;
            }
            empty_items()
        },
        ModuleUse::Partial { colon_colon } => {
            match colon_colon {
                Some(cc) => {
                    if cursor.loc.start >= cc.start {
                        return module_member_completions(
                            symbols,
                            cursor,
                            mod_ident,
                            ChainCompletionKind::All,
                            true,
                        );
                    }
                },
                None => {},
            }
            empty_items()
        },
    }
}


/// Handles completion inside an import statement. Imports of a function alias
/// are chains, and are left to chain completion. The flag is set whenever an
/// import statement encloses the cursor, even where nothing is offered.
pub fn use_decl_completions(symbols: &Symbols, cursor: &CursorContext) -> (r: (
    Vec<CompletionItem>,
    bool,
))
    requires
        symbols.wf(),
    ensures
        items(r.0@) == use_items(*symbols, *cursor),
        r.1 == cursor.use_decl is Some,
{
    let use_ = match &cursor.use_decl {
        Some(u) => u,
        None => {
            return (empty_items(), false);
        },
    };
    let info = AliasAutocompleteInfo::new();
    match use_ {
        UseDecl::ModuleUse { address, address_loc, module, module_use } => {
            if address_loc.contains(&cursor.loc) {
                let r = label_completions(&all_packages(symbols, &info), CompletionItemKind::Unit);
                return (r, true);
            } else if cursor.loc.start > address_loc.end && cursor.loc.end <= module.loc.end {
                return (package_module_completions(symbols, &info, address), true);
            } else {
                let r = module_use_completions(symbols, cursor, &info, module_use, address, module);
                return (r, true);
            }
        },
        UseDecl::NestedModuleUses { package, package_loc, uses } => {
            if package_loc.contains(&cursor.loc) {
                let r = label_completions(&all_packages(symbols, &info), CompletionItemKind::Unit);
                return (r, true);
            }
            if uses.len() > 0 && cursor.loc.start > package_loc.end && cursor.loc.end
                <= uses[0].0.loc.start {
                return (package_module_completions(symbols, &info, package), true);
            }
            let ghost all = uses@;
            let ghost whole = nested_use_items(*symbols, cursor.module, cursor.loc, info@, package@, all);
            let mut completions = empty_items();
            assert(all.skip(0) =~= all);
            assert(whole == use_items(*symbols, *cursor));
            let mut i: usize = 0;
            while i < uses.len()
                invariant
                    i <= uses.len(),
                    all == uses@,
                    info@ == empty_aliases(),
                    cursor.use_decl is Some,
                    whole == use_items(*symbols, *cursor),
                    whole == nested_use_items(*symbols, cursor.module, cursor.loc, info@, package@, all),
                    items(completions@) + nested_use_items(
                        *symbols,
                        cursor.module,
                        cursor.loc,
                        info@,
                        package@,
                        all.skip(i as int),
                    ) == whole,
                decreases uses.len() - i,
            {
                let ghost rest = all.skip(i as int);
                assert(rest.drop_first() =~= all.skip(i + 1));
                assert(rest[0] == all[i as int]);
                let (mod_name, mod_use) = &uses[i];
                if mod_name.loc.contains(&cursor.loc) {
                    append_items(&mut completions, package_module_completions(symbols, &info, package));
                    assert(items(completions@) == whole);
                    return (completions, true);
                }
                let ghost before = items(completions@);
                append_items(
                    &mut completions,
                    module_use_completions(symbols, cursor, &info, mod_use, package, mod_name),
                );
                assert(items(completions@) + nested_use_items(
                    *symbols,
                    cursor.module,
                    cursor.loc,
                    info@,
                    package@,
                    all.skip(i + 1),
                ) =~= before + nested_use_items(
                    *symbols,
                    cursor.module,
                    cursor.loc,
                    info@,
                    package@,
                    rest,
                ));
                i = i + 1;
            }
            assert(all.skip(i as int) =~= Seq::<(Segment, ModuleUse)>::empty());
            assert(items(completions@) =~= whole);
            (completions, true)
        },
        UseDecl::Fun => (empty_items(), true),
        UseDecl::Partial { package, package_loc, colon_colon } => {
            let mut completions = empty_items();
            if package_loc.contains(&cursor.loc) {
                append_items(
                    &mut completions,
                    label_completions(&all_packages(symbols, &info), CompletionItemKind::Unit),
                );
            }
            let past = match colon_colon {
                Some(cc) => cursor.loc.start >= cc.start,
                None => false,
            };
            if past {
                append_items(&mut completions, package_module_completions(symbols, &info, package));
            }
            assert(items(completions@) =~= use_items(*symbols, *cursor));
            (completions, true)
        },
    }
}

} // verus!
