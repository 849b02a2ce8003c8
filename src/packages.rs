//! Package and module lookups shared by chain and import completion.
use crate::model::{
    address_text, AccountAddress, Address, AddressAlias, AddressKey, AliasView,
    LeadingKey, LeadingName, ModuleAlias, ModuleDefs, ModuleId, ModuleKey, Span, Symbols,
    AliasAutocompleteInfo,
};
use crate::model::{names, Named};
use crate::order::{
    holds_module, insert_module_sorted, insert_named, insert_text, lemma_insert_by_name_names,
    lemma_sort_modules, lemma_sort_modules_push, lemma_sort_texts, lemma_sort_texts_push,
    modules_sorted, sort_modules, sort_texts, strictly_sorted,
};
use crate::text::texts;
use vstd::prelude::*;

verus! {

/// Whether module `m` belongs to the package that the leading segment `lead` names.
pub open spec fn in_package(m: ModuleId, lead: LeadingKey) -> bool {
    match m.address {
        Address::NamedUnassigned(name) => match lead {
            LeadingKey::Name(n) => n == name@,
            LeadingKey::GlobalAddress(n) => n == name@,
            LeadingKey::AnonymousAddress(_) => false,
        },
        Address::Numerical { name, value } => match lead {
            LeadingKey::AnonymousAddress(a) => a == value,
            LeadingKey::Name(n) => name is Some && name.unwrap()@ == n,
            LeadingKey::GlobalAddress(n) => name is Some && name.unwrap()@ == n,
        },
    }
}

/// Checks if a module belongs to the package that `leading_name` names.
pub fn is_pkg_mod_ident(mod_ident: &ModuleId, leading_name: &LeadingName) -> (r: bool)
    ensures
        r == in_package(*mod_ident, leading_name@),
{
    match &mod_ident.address {
        Address::NamedUnassigned(name) => match leading_name {
            LeadingName::Name(n) => *n == *name,
            LeadingName::GlobalAddress(n) => *n == *name,
            LeadingName::AnonymousAddress(_) => false,
        },
        Address::Numerical { name, value } => match leading_name {
            LeadingName::AnonymousAddress(a) => *a == *value,
            LeadingName::Name(n) | LeadingName::GlobalAddress(n) => match name {
                Some(x) => *x == *n,
                None => false,
            },
        },
    }
}

/// The alias targets that lie in the package `lead`, in alias order.
pub open spec fn aliased_package_modules(aliases: Seq<ModuleAlias>, lead: LeadingKey) -> Seq<ModuleId>
    decreases aliases.len(),
{
    if aliases.len() == 0 {
        Seq::empty()
    } else {
        let rest = aliased_package_modules(aliases.drop_last(), lead);
        if in_package(aliases.last().module, lead) {
            rest.push(aliases.last().module)
        } else {
            rest
        }
    }
}

/// The indexed modules that lie in the package `lead`, in index order.
pub open spec fn indexed_package_modules(mods: Seq<ModuleDefs>, lead: LeadingKey) -> Seq<ModuleId>
    decreases mods.len(),
{
    if mods.len() == 0 {
        Seq::empty()
    } else {
        let rest = indexed_package_modules(mods.drop_last(), lead);
        if in_package(mods.last().ident, lead) {
            rest.push(mods.last().ident)
        } else {
            rest
        }
    }
}

/// The aliased and indexed modules that lie in the package `lead`.
pub open spec fn package_module_candidates(symbols: Symbols, info: AliasView, lead: LeadingKey) -> Seq<
    ModuleId,
> {
    aliased_package_modules(info.modules, lead) + indexed_package_modules(symbols.modules@, lead)
}

/// The modules of the package `lead` in identity order (address, then name),
/// each identity once.
pub open spec fn package_modules(symbols: Symbols, info: AliasView, lead: LeadingKey) -> Seq<ModuleId> {
    sort_modules(package_module_candidates(symbols, info, lead))
}

/// Gets the modules of the package that `leading_name` names, from the alias
/// snapshot and from the index, in identity order and each identity once.
pub fn pkg_mod_identifiers(
    symbols: &Symbols,
    info: &AliasAutocompleteInfo,
    leading_name: &LeadingName,
) -> (r: Vec<ModuleId>)
    ensures
        r@ == package_modules(*symbols, info@, leading_name@),
        modules_sorted(r@),
        forall|k: ModuleKey|
            holds_module(r@, k) <==> holds_module(
                package_module_candidates(*symbols, info@, leading_name@),
                k,
            ),
{
    let ghost lead = leading_name@;
    let mut out: Vec<ModuleId> = Vec::new();
    let mut i: usize = 0;
    while i < info.modules.len()
        invariant
            i <= info.modules.len(),
            lead == leading_name@,
            out@ == sort_modules(aliased_package_modules(info.modules@.take(i as int), lead)),
        decreases info.modules.len() - i,
    {
        let ghost before = aliased_package_modules(info.modules@.take(i as int), lead);
        assert(info.modules@.take(i + 1).drop_last() =~= info.modules@.take(i as int));
        let m = &info.modules[i].module;
        if is_pkg_mod_ident(m, leading_name) {
            insert_module_sorted(&mut out, m.clone());
            proof {
                lemma_sort_modules_push(before, *m);
            }
        }
        i = i + 1;
    }
    assert(info.modules@.take(i as int) =~= info.modules@);
    let ghost aliased = aliased_package_modules(info.modules@, lead);
    let mut j: usize = 0;
    while j < symbols.modules.len()
        invariant
            j <= symbols.modules.len(),
            lead == leading_name@,
            aliased == aliased_package_modules(info.modules@, lead),
            out@ == sort_modules(
                aliased + indexed_package_modules(symbols.modules@.take(j as int), lead),
            ),
        decreases symbols.modules.len() - j,
    {
        let ghost before = aliased + indexed_package_modules(symbols.modules@.take(j as int), lead);
        assert(symbols.modules@.take(j + 1).drop_last() =~= symbols.modules@.take(j as int));
        let m = &symbols.modules[j].ident;
        if is_pkg_mod_ident(m, leading_name) {
            insert_module_sorted(&mut out, m.clone());
            proof {
                assert(aliased + indexed_package_modules(symbols.modules@.take(j + 1), lead)
                    =~= before.push(*m));
                lemma_sort_modules_push(before, *m);
            }
        } else {
            assert(aliased + indexed_package_modules(symbols.modules@.take(j + 1), lead)
                =~= before);
        }
        j = j + 1;
    }
    assert(symbols.modules@.take(j as int) =~= symbols.modules@);
    proof {
        lemma_sort_modules(aliased + indexed_package_modules(symbols.modules@, lead));
    }
    out
}

/// Whether `addr` is a known package address, by alias or in the index.
pub open spec fn known_address(symbols: Symbols, info: AliasView, addr: AccountAddress) -> bool {
    (exists|i: int| 0 <= i < info.addresses.len() && info.addresses[i].value == addr) || (exists|
        i: int,
    |
        0 <= i < symbols.modules@.len() && symbols.modules@[i].ident.address@
            == AddressKey::Numerical(addr))
}

/// Whether an address is written with the name `name`.
pub open spec fn address_named(a: Address, name: Seq<char>) -> bool {
    match a {
        Address::NamedUnassigned(n) => n@ == name,
        Address::Numerical { name: Some(n), .. } => n@ == name,
        _ => false,
    }
}

/// Whether `name` is a known package name, by alias or in the index.
pub open spec fn known_package_name(symbols: Symbols, info: AliasView, name: Seq<char>) -> bool {
    (exists|i: int| 0 <= i < info.addresses.len() && info.addresses[i].name@ == name) || (exists|
        i: int,
    | 0 <= i < symbols.modules@.len() && address_named(symbols.modules@[i].ident.address, name))
}

/// Check if a given address represents a package within the current program.
pub fn is_package_address(
    symbols: &Symbols,
    info: &AliasAutocompleteInfo,
    pkg_addr: &AccountAddress,
) -> (r: bool)
    ensures
        r == known_address(*symbols, info@, *pkg_addr),
{
    let mut i: usize = 0;
    while i < info.addresses.len()
        invariant
            i <= info.addresses.len(),
            forall|k: int| 0 <= k < i ==> info.addresses@[k].value != *pkg_addr,
        decreases info.addresses.len() - i,
    {
        if info.addresses[i].value == *pkg_addr {
            assert(info@.addresses[i as int].value == *pkg_addr);
            return true;
        }
        i = i + 1;
    }
    let mut j: usize = 0;
    while j < symbols.modules.len()
        invariant
            j <= symbols.modules.len(),
            forall|k: int| 0 <= k < info.addresses@.len() ==> info.addresses@[k].value != *pkg_addr,
            forall|k: int|
                0 <= k < j ==> symbols.modules@[k].ident.address@ != AddressKey::Numerical(
                    *pkg_addr,
                ),
        decreases symbols.modules.len() - j,
    {
        match &symbols.modules[j].ident.address {
            Address::Numerical { value, .. } => {
                if *value == *pkg_addr {
                    assert(symbols.modules@[j as int].ident.address@ == AddressKey::Numerical(
                        *pkg_addr,
                    ));
                    return true;
                }
            },
            Address::NamedUnassigned(_) => {},
        }
        j = j + 1;
    }
    false
}

fn is_address_named(a: &Address, name: &String) -> (r: bool)
    ensures
        r == address_named(*a, name@),
{
    match a {
        Address::NamedUnassigned(n) => *n == *name,
        Address::Numerical { name: Some(n), .. } => *n == *name,
        _ => false,
    }
}

/// Check if a given name represents a package within the current program.
pub fn is_package_name(symbols: &Symbols, info: &AliasAutocompleteInfo, pkg_name: &String) -> (r:
    bool)
    ensures
        r == known_package_name(*symbols, info@, pkg_name@),
{
    let mut i: usize = 0;
    while i < info.addresses.len()
        invariant
            i <= info.addresses.len(),
            forall|k: int| 0 <= k < i ==> info.addresses@[k].name@ != pkg_name@,
        decreases info.addresses.len() - i,
    {
        if info.addresses[i].name == *pkg_name {
            assert(info@.addresses[i as int].name@ == pkg_name@);
            return true;
        }
        i = i + 1;
    }
    let mut j: usize = 0;
    while j < symbols.modules.len()
        invariant
            j <= symbols.modules.len(),
            forall|k: int| 0 <= k < info.addresses@.len() ==> info.addresses@[k].name@ != pkg_name@,
            forall|k: int|
                0 <= k < j ==> !address_named(symbols.modules@[k].ident.address, pkg_name@),
        decreases symbols.modules.len() - j,
    {
        if is_address_named(&symbols.modules[j].ident.address, pkg_name) {
            assert(address_named(symbols.modules@[j as int].ident.address, pkg_name@));
            return true;
        }
        j = j + 1;
    }
    false
}

/// The names and address texts of the aliased package addresses.
pub open spec fn alias_address_texts(addrs: Seq<AddressAlias>) -> Seq<Seq<char>>
    decreases addrs.len(),
{
    if addrs.len() == 0 {
        Seq::empty()
    } else {
        alias_address_texts(addrs.drop_last()).push(addrs.last().name@).push(
            address_text(addrs.last().value),
        )
    }
}

/// The texts under which an indexed module's address can be written.
pub open spec fn address_texts(a: Address) -> Seq<Seq<char>> {
    match a {
        Address::Numerical { name: Some(n), value } => seq![n@, address_text(value)],
        Address::Numerical { name: None, value } => seq![address_text(value)],
        Address::NamedUnassigned(n) => seq![n@],
    }
}

/// The address texts of the indexed modules, in index order.
pub open spec fn indexed_address_texts(mods: Seq<ModuleDefs>) -> Seq<Seq<char>>
    decreases mods.len(),
{
    if mods.len() == 0 {
        Seq::empty()
    } else {
        indexed_address_texts(mods.drop_last()) + address_texts(mods.last().ident.address)
    }
}

/// The raw texts of every package that could be a target of completion.
pub open spec fn raw_package_labels(symbols: Symbols, info: AliasView) -> Seq<Seq<char>> {
    alias_address_texts(info.addresses) + indexed_address_texts(symbols.modules@)
}

/// Every package that could be a target of completion, sorted, each text once.
pub open spec fn package_labels(symbols: Symbols, info: AliasView) -> Seq<Seq<char>> {
    sort_texts(raw_package_labels(symbols, info))
}

/// Inserts a label into `out`, which is kept sorted with each text once.
fn insert_label(out: &mut Vec<String>, s: String)
    ensures
        texts(final(out)@) == insert_text(texts(old(out)@), s@),
{
    let ghost v = s@;
    insert_named(out, s);
    proof {
        lemma_insert_by_name_names(old(out)@, s);
        assert(names(old(out)@) =~= texts(old(out)@));
        assert(names(final(out)@) =~= texts(final(out)@));
    }
}

/// Get all packages that could be a target of completion, whether the alias
/// snapshot names them or not: sorted, each text once.
pub fn all_packages(symbols: &Symbols, info: &AliasAutocompleteInfo) -> (r: Vec<String>)
    ensures
        texts(r@) == package_labels(*symbols, info@),
        strictly_sorted(texts(r@)),
        forall|y: Seq<char>| texts(r@).contains(y) <==> raw_package_labels(*symbols, info@).contains(y),
{
    let mut out: Vec<String> = Vec::new();
    let mut i: usize = 0;
    while i < info.addresses.len()
        invariant
            i <= info.addresses.len(),
            texts(out@) == sort_texts(alias_address_texts(info.addresses@.take(i as int))),
        decreases info.addresses.len() - i,
    {
        let ghost before = alias_address_texts(info.addresses@.take(i as int));
        assert(info.addresses@.take(i + 1).drop_last() =~= info.addresses@.take(i as int));
        let a = &info.addresses[i];
        insert_label(&mut out, a.name.clone());
        proof {
            lemma_sort_texts_push(before, a.name@);
        }
        insert_label(&mut out, a.value.label());
        proof {
            lemma_sort_texts_push(before.push(a.name@), address_text(a.value));
        }
        i = i + 1;
    }
    assert(info.addresses@.take(i as int) =~= info.addresses@);
    let ghost aliased = alias_address_texts(info.addresses@);
    let mut j: usize = 0;
    while j < symbols.modules.len()
        invariant
            j <= symbols.modules.len(),
            aliased == alias_address_texts(info.addresses@),
            texts(out@) == sort_texts(
                aliased + indexed_address_texts(symbols.modules@.take(j as int)),
            ),
        decreases symbols.modules.len() - j,
    {
        let ghost before = aliased + indexed_address_texts(symbols.modules@.take(j as int));
        assert(symbols.modules@.take(j + 1).drop_last() =~= symbols.modules@.take(j as int));
        match &symbols.modules[j].ident.address {
            Address::Numerical { name, value } => {
                match name {
                    Some(n) => {
                        insert_label(&mut out, n.clone());
                        proof {
                            lemma_sort_texts_push(before, n@);
                        }
                        insert_label(&mut out, value.label());
                        proof {
                            lemma_sort_texts_push(before.push(n@), address_text(*value));
                            assert(aliased + indexed_address_texts(
                                symbols.modules@.take(j + 1),
                            ) =~= before.push(n@).push(address_text(*value)));
                        }
                    },
                    None => {
                        insert_label(&mut out, value.label());
                        proof {
                            lemma_sort_texts_push(before, address_text(*value));
                            assert(aliased + indexed_address_texts(
                                symbols.modules@.take(j + 1),
                            ) =~= before.push(address_text(*value)));
                        }
                    },
                }
            },
            Address::NamedUnassigned(n) => {
                insert_label(&mut out, n.clone());
                proof {
                    lemma_sort_texts_push(before, n@);
                    assert(aliased + indexed_address_texts(symbols.modules@.take(j + 1))
                        =~= before.push(n@));
                }
            },
        }
        j = j + 1;
    }
    assert(symbols.modules@.take(j as int) =~= symbols.modules@);
    proof {
        lemma_sort_texts(raw_package_labels(*symbols, info@));
    }
    out
}

/// The definitions of the first indexed module with identity `key`.
pub open spec fn module_defs(mods: Seq<ModuleDefs>, key: ModuleKey) -> Option<ModuleDefs>
    decreases mods.len(),
{
    if mods.len() == 0 {
        None
    } else if mods[0].ident@ == key {
        Some(mods[0])
    } else {
        module_defs(mods.drop_first(), key)
    }
}

/// The position in the index of the definitions of module `mod_ident`.
pub fn mod_defs(symbols: &Symbols, mod_ident: &ModuleId) -> (r: Option<usize>)
    ensures
        match r {
            Some(i) => i < symbols.modules@.len() && module_defs(symbols.modules@, mod_ident@)
                == Some(symbols.modules@[i as int]),
            None => module_defs(symbols.modules@, mod_ident@) is None,
        },
{
    let ghost all = symbols.modules@;
    assert(all.skip(0) =~= all);
    let mut i: usize = 0;
    while i < symbols.modules.len()
        invariant
            i <= symbols.modules.len(),
            all == symbols.modules@,
            module_defs(all, mod_ident@) == module_defs(all.skip(i as int), mod_ident@),
        decreases symbols.modules.len() - i,
    {
        assert(all.skip(i as int).drop_first() =~= all.skip(i + 1));
        assert(all.skip(i as int)[0] == all[i as int]);
        if symbols.modules[i].ident.same(mod_ident) {
            return Some(i);
        }
        i = i + 1;
    }
    assert(all.skip(i as int).len() == 0);
    None
}

/// The alias snapshot of the chain root at `loc`, where there is one.
pub open spec fn aliases_at(infos: Seq<(Span, AliasAutocompleteInfo)>, loc: Span) -> AliasView
    decreases infos.len(),
{
    if infos.len() == 0 {
        crate::model::empty_aliases()
    } else if infos[0].0 == loc {
        infos[0].1@
    } else {
        aliases_at(infos.drop_first(), loc)
    }
}

/// The position of the alias snapshot of the chain root at `loc`.
pub fn alias_info_at(symbols: &Symbols, loc: &Span) -> (r: Option<usize>)
    ensures
        match r {
            Some(i) => i < symbols.path_autocomplete_info@.len() && aliases_at(
                symbols.path_autocomplete_info@,
                *loc,
            ) == symbols.path_autocomplete_info@[i as int].1@,
            None => aliases_at(symbols.path_autocomplete_info@, *loc)
                == crate::model::empty_aliases(),
        },
{
    let ghost all = symbols.path_autocomplete_info@;
    assert(all.skip(0) =~= all);
    let mut i: usize = 0;
    while i < symbols.path_autocomplete_info.len()
        invariant
            i <= all.len(),
            all == symbols.path_autocomplete_info@,
            aliases_at(all, *loc) == aliases_at(all.skip(i as int), *loc),
        decreases all.len() - i,
    {
        assert(all.skip(i as int).drop_first() =~= all.skip(i + 1));
        assert(all.skip(i as int)[0] == all[i as int]);
        if symbols.path_autocomplete_info[i].0 == *loc {
            return Some(i);
        }
        i = i + 1;
    }
    assert(all.skip(i as int).len() == 0);
    None
}

} // verus!
