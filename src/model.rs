//! The data that the completion engine reads: source spans, addresses, module
//! identities, the symbol index, alias snapshots, the cursor, and the
//! candidates that it produces.
use crate::text::{hex_digits, padded_digits, padded_radix_text, radix_text};
use crate::order::{lemma_text_lt_transitive, strictly_sorted, text_less, text_lt};
use vstd::prelude::*;

verus! {

/// A region of source text, by offsets.
#[derive(Clone, Copy, PartialEq, Eq, Structural, Debug)]
pub struct Span {
    pub start: u64,
    pub end: u64,
}

impl Span {
    pub open spec fn holds(self, inner: Span) -> bool {
        self.start <= inner.start && inner.end <= self.end
    }

    /// Whether `inner` lies within this span.
    pub fn contains(&self, inner: &Span) -> (r: bool)
        ensures
            r == self.holds(*inner),
    {
        self.start <= inner.start && inner.end <= self.end
    }
}

/// A 256-bit account address, as its high and low halves.
#[derive(Clone, Copy, PartialEq, Eq, Structural, Debug)]
pub struct AccountAddress {
    pub high: u128,
    pub low: u128,
}

/// The text of an address: `0x` and its hexadecimal digits without leading zeros.
pub open spec fn address_text(a: AccountAddress) -> Seq<char> {
    seq!['0', 'x'] + if a.high == 0 {
        hex_digits(a.low as nat)
    } else {
        hex_digits(a.high as nat) + padded_digits(a.low as nat, 16, 32)
    }
}

impl AccountAddress {
    /// Renders the address as `0x` followed by its hexadecimal digits.
    pub fn label(&self) -> (r: String)
        ensures
            r@ == address_text(*self),
    {
        let prefix = String::from_str("0x");
        proof {
            reveal_strlit("0x");
        }
        if self.high == 0 {
            let digits = radix_text(self.low, 16);
            prefix.concat(digits.as_str())
        } else {
            let high = radix_text(self.high, 16);
            let low = padded_radix_text(self.low, 16, 32);
            let r = prefix.concat(high.as_str()).concat(low.as_str());
            assert(r@ =~= address_text(*self));
            r
        }
    }
}

/// The address part of a module identity.
#[derive(Debug)]
pub enum Address {
    /// A numeric address, possibly written through a named alias.
    Numerical { name: Option<String>, value: AccountAddress },
    /// A named address that was never given a value.
    NamedUnassigned(String),
}

/// What identifies an address: its value, or the name of an unassigned one.
pub enum AddressKey {
    Numerical(AccountAddress),
    Named(Seq<char>),
}

impl View for Address {
    type V = AddressKey;

    open spec fn view(&self) -> AddressKey {
        match self {
            Address::Numerical { value, .. } => AddressKey::Numerical(*value),
            Address::NamedUnassigned(n) => AddressKey::Named(n@),
        }
    }
}

impl Clone for Address {
    fn clone(&self) -> (r: Self)
        ensures
            r == *self,
    {
        match self {
            Address::Numerical { name, value } => {
                let name = match name {
                    Some(n) => Some(n.clone()),
                    None => None,
                };
                Address::Numerical { name, value: *value }
            },
            Address::NamedUnassigned(n) => Address::NamedUnassigned(n.clone()),
        }
    }
}

impl Address {
    /// Whether the two addresses are the same address (aliases aside).
    pub fn same(&self, other: &Address) -> (r: bool)
        ensures
            r == (self@ == other@),
    {
        match (self, other) {
            (Address::Numerical { value: a, .. }, Address::Numerical { value: b, .. }) => *a == *b,
            (Address::NamedUnassigned(a), Address::NamedUnassigned(b)) => *a == *b,
            _ => false,
        }
    }
}

/// A module's identity: its address and its name.
#[derive(Debug)]
pub struct ModuleId {
    pub address: Address,
    pub module: String,
}

/// What identifies a module: its address key and its name.
pub struct ModuleKey {
    pub address: AddressKey,
    pub module: Seq<char>,
}

impl View for ModuleId {
    type V = ModuleKey;

    open spec fn view(&self) -> ModuleKey {
        ModuleKey { address: self.address@, module: self.module@ }
    }
}

impl Clone for ModuleId {
    fn clone(&self) -> (r: Self)
        ensures
            r == *self,
    {
        ModuleId { address: self.address.clone(), module: self.module.clone() }
    }
}

impl ModuleId {
    /// Whether the two identities name the same module.
    pub fn same(&self, other: &ModuleId) -> (r: bool)
        ensures
            r == (self@ == other@),
    {
        self.address.same(&other.address) && self.module == other.module
    }
}

/// The leading segment of a chain, by its form.
#[derive(Debug)]
pub enum LeadingName {
    /// A plain name: a package, module or member alias.
    Name(String),
    /// A numeric address literal.
    AnonymousAddress(AccountAddress),
    /// A name with the explicit global-path marker: only a package.
    GlobalAddress(String),
}

/// What a leading segment says, by form.
pub enum LeadingKey {
    Name(Seq<char>),
    AnonymousAddress(AccountAddress),
    GlobalAddress(Seq<char>),
}

impl View for LeadingName {
    type V = LeadingKey;

    open spec fn view(&self) -> LeadingKey {
        match self {
            LeadingName::Name(n) => LeadingKey::Name(n@),
            LeadingName::AnonymousAddress(a) => LeadingKey::AnonymousAddress(*a),
            LeadingName::GlobalAddress(n) => LeadingKey::GlobalAddress(n@),
        }
    }
}

impl Clone for LeadingName {
    fn clone(&self) -> (r: Self)
        ensures
            r == *self,
    {
        match self {
            LeadingName::Name(n) => LeadingName::Name(n.clone()),
            LeadingName::AnonymousAddress(a) => LeadingName::AnonymousAddress(*a),
            LeadingName::GlobalAddress(n) => LeadingName::GlobalAddress(n.clone()),
        }
    }
}

/// Who may see a module member.
#[derive(Clone, Copy, PartialEq, Eq, Structural, Debug)]
pub enum Visibility {
    ModulePrivate,
    PackageVisible,
    Public,
}

/// A function of a module.
#[derive(Debug)]
pub struct FunctionDef {
    pub name: String,
    pub visibility: Visibility,
    pub is_macro: bool,
    pub params: Vec<String>,
}

/// A struct of a module, with its fields in declaration order.
#[derive(Debug)]
pub struct StructDef {
    pub name: String,
    pub fields: Vec<String>,
    pub positional: bool,
}

/// One variant of an enum, with its fields in declaration order.
#[derive(Debug)]
pub struct VariantDef {
    pub name: String,
    pub fields: Vec<String>,
    pub positional: bool,
}

/// An enum of a module, with its variants in declaration order.
#[derive(Debug)]
pub struct EnumDef {
    pub name: String,
    pub variants: Vec<VariantDef>,
}

/// A constant of a module.
#[derive(Debug)]
pub struct ConstantDef {
    pub name: String,
}

/// The definitions of one module; each table is keyed by name.
#[derive(Debug)]
pub struct ModuleDefs {
    pub ident: ModuleId,
    pub functions: Vec<FunctionDef>,
    pub structs: Vec<StructDef>,
    pub enums: Vec<EnumDef>,
    pub constants: Vec<ConstantDef>,
}

impl ModuleDefs {
    /// Each table is keyed by name: strictly sorted by it, no name twice.
    pub open spec fn wf(&self) -> bool {
        &&& strictly_sorted(names(self.functions@))
        &&& strictly_sorted(names(self.structs@))
        &&& strictly_sorted(names(self.enums@))
        &&& strictly_sorted(names(self.constants@))
    }

    /// Whether every table is keyed by name.
    pub fn is_well_formed(&self) -> (r: bool)
        ensures
            r == self.wf(),
    {
        is_sorted_by_name(&self.functions) && is_sorted_by_name(&self.structs)
            && is_sorted_by_name(&self.enums) && is_sorted_by_name(&self.constants)
    }
}

/// A package address visible under a name.
#[derive(Debug)]
pub struct AddressAlias {
    pub name: String,
    pub value: AccountAddress,
}

/// A module visible under a short name.
#[derive(Debug)]
pub struct ModuleAlias {
    pub alias: String,
    pub module: ModuleId,
}

/// A module member visible under a short name.
#[derive(Debug)]
pub struct MemberAlias {
    pub alias: String,
    pub module: ModuleId,
    pub member: String,
}

/// The aliases visible at the root of one chain.
#[derive(Debug)]
pub struct AliasAutocompleteInfo {
    pub addresses: Vec<AddressAlias>,
    pub modules: Vec<ModuleAlias>,
    pub members: Vec<MemberAlias>,
    pub type_params: Vec<String>,
}

/// The contents of an alias snapshot.
pub struct AliasView {
    pub addresses: Seq<AddressAlias>,
    pub modules: Seq<ModuleAlias>,
    pub members: Seq<MemberAlias>,
    pub type_params: Seq<String>,
}

/// The snapshot with nothing in it.
pub open spec fn empty_aliases() -> AliasView {
    AliasView {
        addresses: Seq::empty(),
        modules: Seq::empty(),
        members: Seq::empty(),
        type_params: Seq::empty(),
    }
}

impl View for AliasAutocompleteInfo {
    type V = AliasView;

    open spec fn view(&self) -> AliasView {
        AliasView {
            addresses: self.addresses@,
            modules: self.modules@,
            members: self.members@,
            type_params: self.type_params@,
        }
    }
}

impl AliasAutocompleteInfo {
    /// Addresses, module and member aliases, and type parameters are keyed
    /// by name.
    pub open spec fn wf(&self) -> bool {
        &&& strictly_sorted(names(self.addresses@))
        &&& strictly_sorted(names(self.modules@))
        &&& strictly_sorted(names(self.members@))
        &&& strictly_sorted(names(self.type_params@))
    }

    /// Whether addresses, module and member aliases, and type parameters are
    /// keyed by name.
    pub fn is_well_formed(&self) -> (r: bool)
        ensures
            r == self.wf(),
    {
        is_sorted_by_name(&self.addresses) && is_sorted_by_name(&self.modules)
            && is_sorted_by_name(&self.members) && is_sorted_by_name(&self.type_params)
    }

    /// An alias snapshot with nothing in it.
    pub fn new() -> (r: Self)
        ensures
            r@ == empty_aliases(),
    {
        let r = AliasAutocompleteInfo {
            addresses: Vec::new(),
            modules: Vec::new(),
            members: Vec::new(),
            type_params: Vec::new(),
        };
        assert(r@ =~= empty_aliases());
        r
    }
}

/// An entry of a table that is looked up by a name.
pub trait Named {
    spec fn key(&self) -> Seq<char>;

    fn name(&self) -> (r: &String)
        ensures
            r@ == self.key(),
    ;
}

impl Named for FunctionDef {
    open spec fn key(&self) -> Seq<char> {
        self.name@
    }

    fn name(&self) -> (r: &String) {
        &self.name
    }
}

impl Named for StructDef {
    open spec fn key(&self) -> Seq<char> {
        self.name@
    }

    fn name(&self) -> (r: &String) {
        &self.name
    }
}

impl Named for EnumDef {
    open spec fn key(&self) -> Seq<char> {
        self.name@
    }

    fn name(&self) -> (r: &String) {
        &self.name
    }
}

impl Named for ConstantDef {
    open spec fn key(&self) -> Seq<char> {
        self.name@
    }

    fn name(&self) -> (r: &String) {
        &self.name
    }
}

impl Named for AddressAlias {
    open spec fn key(&self) -> Seq<char> {
        self.name@
    }

    fn name(&self) -> (r: &String) {
        &self.name
    }
}

impl Named for ModuleAlias {
    open spec fn key(&self) -> Seq<char> {
        self.alias@
    }

    fn name(&self) -> (r: &String) {
        &self.alias
    }
}

impl Named for MemberAlias {
    open spec fn key(&self) -> Seq<char> {
        self.alias@
    }

    fn name(&self) -> (r: &String) {
        &self.alias
    }
}

impl Named for String {
    open spec fn key(&self) -> Seq<char> {
        self@
    }

    fn name(&self) -> (r: &String) {
        self
    }
}

impl Named for ModuleId {
    open spec fn key(&self) -> Seq<char> {
        self.module@
    }

    fn name(&self) -> (r: &String) {
        &self.module
    }
}

/// The labels of a sequence of candidates.
pub open spec fn item_labels(s: Seq<ItemView>) -> Seq<Seq<char>> {
    s.map_values(|c: ItemView| c.label)
}

/// Candidates without snippets, one for each label.
pub open spec fn label_items(labels: Seq<Seq<char>>, kind: CompletionItemKind) -> Seq<ItemView> {
    labels.map_values(|l: Seq<char>| plain(l, kind))
}

/// Candidates without snippets for the given labels.
pub fn label_completions(labels: &Vec<String>, kind: CompletionItemKind) -> (r: Vec<CompletionItem>)
    ensures
        items(r@) == label_items(crate::text::texts(labels@), kind),
{
    let mut out: Vec<CompletionItem> = Vec::new();
    let mut i: usize = 0;
    while i < labels.len()
        invariant
            i <= labels.len(),
            items(out@) =~= label_items(crate::text::texts(labels@).take(i as int), kind),
        decreases labels.len() - i,
    {
        let c = completion_item(&labels[i], kind);
        out.push(c);
        assert(label_items(crate::text::texts(labels@).take(i + 1), kind) =~= label_items(
            crate::text::texts(labels@).take(i as int),
            kind,
        ).push(c@));
        i = i + 1;
    }
    assert(crate::text::texts(labels@).take(i as int) =~= crate::text::texts(labels@));
    out
}

/// Candidates without snippets for the names of a table's entries.
pub fn name_completions<T: Named>(v: &Vec<T>, kind: CompletionItemKind) -> (r: Vec<CompletionItem>)
    ensures
        items(r@) == label_items(names(v@), kind),
{
    let mut out: Vec<CompletionItem> = Vec::new();
    let mut i: usize = 0;
    while i < v.len()
        invariant
            i <= v.len(),
            items(out@) =~= label_items(names(v@).take(i as int), kind),
        decreases v.len() - i,
    {
        let c = completion_item(v[i].name(), kind);
        out.push(c);
        assert(label_items(names(v@).take(i + 1), kind) =~= label_items(
            names(v@).take(i as int),
            kind,
        ).push(c@));
        i = i + 1;
    }
    assert(names(v@).take(i as int) =~= names(v@));
    out
}

/// Whether the entries of `v` are strictly sorted by name.
pub fn is_sorted_by_name<T: Named>(v: &Vec<T>) -> (r: bool)
    ensures
        r == strictly_sorted(names(v@)),
{
    let ghost n = names(v@);
    if v.len() == 0 {
        return true;
    }
    let mut i: usize = 1;
    while i < v.len()
        invariant
            1 <= i <= v.len(),
            n == names(v@),
            strictly_sorted(n.take(i as int)),
        decreases v.len() - i,
    {
        if !text_less(v[i - 1].name(), v[i].name()) {
            assert(n.take(i + 1)[i - 1] == n[i - 1] && n.take(i + 1)[i as int] == n[i as int]);
            return false;
        }
        assert forall|a: int, b: int| 0 <= a < b < i + 1 implies text_lt(
            #[trigger] n.take(i + 1)[a],
            #[trigger] n.take(i + 1)[b],
        ) by {
            if b == i && a < i - 1 {
                assert(n.take(i as int)[a] == n[a] && n.take(i as int)[i - 1] == n[i - 1]);
                lemma_text_lt_transitive(n[a], n[i - 1], n[b]);
            } else if b < i {
                assert(n.take(i as int)[a] == n[a] && n.take(i as int)[b] == n[b]);
            }
        }
        i = i + 1;
    }
    assert(n.take(i as int) =~= n);
    true
}

/// The names of a table's entries, in order.
pub open spec fn names<T: Named>(s: Seq<T>) -> Seq<Seq<char>> {
    s.map_values(|t: T| t.key())
}

/// Whether `i` is the first position of `name` in `names`.
pub open spec fn is_first(names: Seq<Seq<char>>, name: Seq<char>, i: int) -> bool {
    &&& 0 <= i < names.len()
    &&& names[i] == name
    &&& forall|j: int| 0 <= j < i ==> names[j] != name
}

/// The first position of `name` in `names`, or -1 where it does not occur.
pub open spec fn first_at(names: Seq<Seq<char>>, name: Seq<char>) -> int {
    if exists|i: int| is_first(names, name, i) {
        choose|i: int| is_first(names, name, i)
    } else {
        -1
    }
}

proof fn lemma_first_exists(names: Seq<Seq<char>>, name: Seq<char>, k: int)
    requires
        0 <= k < names.len(),
        names[k] == name,
    ensures
        exists|i: int| is_first(names, name, i),
    decreases k,
{
    if exists|j: int| 0 <= j < k && names[j] == name {
        let j = choose|j: int| 0 <= j < k && names[j] == name;
        lemma_first_exists(names, name, j);
    } else {
        assert(is_first(names, name, k));
    }
}

/// The first position is unique, and absent only where the name does not occur.
pub proof fn lemma_first_at(names: Seq<Seq<char>>, name: Seq<char>)
    ensures
        first_at(names, name) >= 0 ==> is_first(names, name, first_at(names, name)),
        forall|i: int| is_first(names, name, i) ==> first_at(names, name) == i,
        first_at(names, name) < 0 <==> !names.contains(name),
{
    if names.contains(name) {
        let k = choose|k: int| 0 <= k < names.len() && names[k] == name;
        lemma_first_exists(names, name, k);
    }
    assert forall|i: int| is_first(names, name, i) implies first_at(names, name) == i by {
        let c = first_at(names, name);
        assert(is_first(names, name, c));
        if c < i {
            assert(names[c] != name);
        }
        if i < c {
            assert(names[i] != name);
        }
    }
}

/// The first position of `name` among the entries of `v`.
pub fn find_named<T: Named>(v: &Vec<T>, name: &String) -> (r: Option<usize>)
    ensures
        match r {
            Some(i) => i as int == first_at(names(v@), name@),
            None => first_at(names(v@), name@) == -1,
        },
{
    proof {
        lemma_first_at(names(v@), name@);
    }
    let mut i: usize = 0;
    while i < v.len()
        invariant
            i <= v.len(),
            forall|j: int| 0 <= j < i ==> names(v@)[j] != name@,
        decreases v.len() - i,
    {
        if *v[i].name() == *name {
            assert(is_first(names(v@), name@, i as int));
            return Some(i);
        }
        i = i + 1;
    }
    proof {
        if names(v@).contains(name@) {
            let k = choose|k: int| 0 <= k < names(v@).len() && names(v@)[k] == name@;
            assert(names(v@)[k] != name@);
        }
    }
    None
}

/// The read-only symbol index: every module's definitions, and the alias
/// snapshot of each chain root, keyed by the root's span.
#[derive(Debug)]
pub struct Symbols {
    pub modules: Vec<ModuleDefs>,
    pub path_autocomplete_info: Vec<(Span, AliasAutocompleteInfo)>,
}

impl Symbols {
    /// Every module and every alias snapshot is keyed by name.
    pub open spec fn wf(&self) -> bool {
        &&& forall|i: int| 0 <= i < self.modules@.len() ==> (#[trigger] self.modules@[i]).wf()
        &&& forall|i: int|
            0 <= i < self.path_autocomplete_info@.len()
                ==> (#[trigger] self.path_autocomplete_info@[i]).1.wf()
    }

    /// Whether every module and every alias snapshot is keyed by name.
    pub fn is_well_formed(&self) -> (r: bool)
        ensures
            r == self.wf(),
    {
        let mut i: usize = 0;
        while i < self.modules.len()
            invariant
                i <= self.modules.len(),
                forall|k: int| 0 <= k < i ==> (#[trigger] self.modules@[k]).wf(),
            decreases self.modules.len() - i,
        {
            if !self.modules[i].is_well_formed() {
                return false;
            }
            i = i + 1;
        }
        let mut j: usize = 0;
        while j < self.path_autocomplete_info.len()
            invariant
                j <= self.path_autocomplete_info.len(),
                forall|k: int| 0 <= k < self.modules@.len() ==> (#[trigger] self.modules@[k]).wf(),
                forall|k: int|
                    0 <= k < j ==> (#[trigger] self.path_autocomplete_info@[k]).1.wf(),
            decreases self.path_autocomplete_info.len() - j,
        {
            if !self.path_autocomplete_info[j].1.is_well_formed() {
                return false;
            }
            j = j + 1;
        }
        true
    }
}

/// One segment of a chain after the leading one.
#[derive(Debug)]
pub struct Segment {
    pub name: String,
    pub loc: Span,
}

/// What the whole chain may stand for, which filters the members offered.
#[derive(Clone, Copy, PartialEq, Eq, Structural, Debug)]
pub enum ChainCompletionKind {
    Type,
    Function,
    All,
}

/// The chain that encloses the cursor.
#[derive(Debug)]
pub struct ChainInfo {
    pub leading_name: LeadingName,
    pub leading_loc: Span,
    pub entries: Vec<Segment>,
    pub kind: ChainCompletionKind,
    pub inside_use: bool,
}

/// The tail of a module import.
#[derive(Debug)]
pub enum ModuleUse {
    /// The module alone (`use a::m;`).
    Module,
    /// A member group (`use a::m::{x, y};`), by the members' names.
    Members(Vec<Segment>),
    /// An unfinished import after the module, with the span of `::` if typed.
    Partial { colon_colon: Option<Span> },
}

/// An import statement that encloses the cursor.
#[derive(Debug)]
pub enum UseDecl {
    /// `use pkg::module...;`
    ModuleUse { address: LeadingName, address_loc: Span, module: Segment, module_use: ModuleUse },
    /// `use pkg::{m1..., m2...};`
    NestedModuleUses { package: LeadingName, package_loc: Span, uses: Vec<(Segment, ModuleUse)> },
    /// `use fun ...`: handled as a chain.
    Fun,
    /// An unfinished import after the package, with the span of `::` if typed.
    Partial { package: LeadingName, package_loc: Span, colon_colon: Option<Span> },
}

/// Where the cursor stands and what encloses it.
#[derive(Debug)]
pub struct CursorContext {
    /// The module that encloses the cursor, if any.
    pub module: Option<ModuleId>,
    pub loc: Span,
    pub access_chain: Option<ChainInfo>,
    pub use_decl: Option<UseDecl>,
}

/// What a candidate stands for.
#[derive(Clone, Copy, PartialEq, Eq, Structural, Debug)]
pub enum CompletionItemKind {
    Unit,
    Module,
    Function,
    Struct,
    Enum,
    EnumMember,
    Constant,
    TypeParameter,
    Keyword,
}

/// A completion candidate: its label, its kind, and a snippet template.
#[derive(Debug)]
pub struct CompletionItem {
    pub label: String,
    pub kind: CompletionItemKind,
    pub snippet: Option<String>,
}

/// The text of a candidate.
pub struct ItemView {
    pub label: Seq<char>,
    pub kind: CompletionItemKind,
    pub snippet: Option<Seq<char>>,
}

/// A candidate without a snippet.
pub open spec fn plain(label: Seq<char>, kind: CompletionItemKind) -> ItemView {
    ItemView { label, kind, snippet: None }
}

impl View for CompletionItem {
    type V = ItemView;

    open spec fn view(&self) -> ItemView {
        ItemView {
            label: self.label@,
            kind: self.kind,
            snippet: match self.snippet {
                Some(s) => Some(s@),
                None => None,
            },
        }
    }
}

/// The texts of a sequence of candidates.
pub open spec fn items(v: Seq<CompletionItem>) -> Seq<ItemView> {
    v.map_values(|c: CompletionItem| c@)
}

/// Moves the candidates of `more` to the end of `out`.
pub fn append_items(out: &mut Vec<CompletionItem>, more: Vec<CompletionItem>)
    ensures
        items(final(out)@) == items(old(out)@) + items(more@),
{
    let mut more = more;
    let ghost added = more@;
    out.append(&mut more);
    assert(items(final(out)@) =~= items(old(out)@) + items(added));
}

/// A candidate without a snippet.
pub fn completion_item(label: &String, kind: CompletionItemKind) -> (r: CompletionItem)
    ensures
        r@ == plain(label@, kind),
{
    CompletionItem { label: label.clone(), kind, snippet: None }
}

} // verus!
