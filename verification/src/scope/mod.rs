//! Scopes and the symbols declared in them: a tree of scopes, each binding
//! names to symbol ids, with lookups that walk up to the enclosing scopes.

pub mod ast;
pub mod struct_res;
pub mod name_res;

use vstd::prelude::*;
use crate::text::{string_chars, push_lit, extend_chars, string_from_chars};
use crate::token::TokCtx;
use crate::parser::ast::ScopeId;
use crate::parser::ast::SymbolId;
use crate::parser::err::{ParseErr, ParseErrType, ErrV};

verus! {

/// What a name is looked up as.
#[derive(Copy, Clone, Debug, PartialEq, Eq, Structural)]
pub enum SymbolSpecies {
    Ident,
    Type,
    Fn,
}

/// The kind of a declared symbol.
#[derive(Copy, Clone, Debug, PartialEq, Eq, Structural)]
pub enum SymbolKind {
    Variable,
    Function,
    FnParam,
    Struct,
    Field,
    Uniform,
    PushConstant,
    Input,
    Output,
    Provide,
}

/// Whether a symbol of kind `k` is found when looking for `species`.
pub open spec fn kind_matches(k: SymbolKind, species: SymbolSpecies) -> bool {
    match k {
        SymbolKind::Variable | SymbolKind::Field | SymbolKind::Uniform | SymbolKind::PushConstant
        | SymbolKind::Input | SymbolKind::Output | SymbolKind::Provide => species == SymbolSpecies::Ident,
        SymbolKind::Function => species == SymbolSpecies::Fn,
        SymbolKind::Struct => species == SymbolSpecies::Type,
        SymbolKind::FnParam => false,
    }
}

fn kind_matches_exec(k: SymbolKind, species: SymbolSpecies) -> (r: bool)
    ensures
        r == kind_matches(k, species),
{
    match k {
        SymbolKind::Variable | SymbolKind::Field | SymbolKind::Uniform | SymbolKind::PushConstant
        | SymbolKind::Input | SymbolKind::Output | SymbolKind::Provide => species == SymbolSpecies::Ident,
        SymbolKind::Function => species == SymbolSpecies::Fn,
        SymbolKind::Struct => species == SymbolSpecies::Type,
        SymbolKind::FnParam => false,
    }
}

/// Something that names a symbol and can point at where it was written.
pub trait SymbolName {
    /// The name.
    spec fn name_view(&self) -> Seq<char>;

    fn get_name(&self) -> (r: &String)
        ensures
            r@ == self.name_view(),
    ;

    /// Line, first and last column of where an error about this name points.
    spec fn error_pos(&self) -> (u32, u32, u32);

    /// Where an error about this name points.
    fn get_error_token(&self) -> (r: TokCtx)
        ensures
            (r.line, r.start_pos, r.end_pos) == self.error_pos(),
    ;
}

/// One scope: its enclosing scope and the names it binds, in the order they
/// were first bound.
#[derive(Debug)]
pub struct ScopeData {
    parent: Option<ScopeId>,
    by_name: Vec<(String, SymbolId)>,
}

/// A tree of scopes sharing one table of symbols. Scopes are identified by
/// their index; a scope's parent always has a smaller index.
#[derive(Debug)]
pub struct Scopes {
    scopes: Vec<ScopeData>,
    symbols: Vec<(SymbolId, SymbolKind)>,
    struct_scopes: Vec<(SymbolId, ScopeId)>,
    records: Vec<(SymbolId, crate::scope::ast::Symbol)>,
}

/// The symbol bound to `name` in a list of bindings.
pub open spec fn binding_of(b: Seq<(Seq<char>, SymbolId)>, name: Seq<char>) -> Option<SymbolId>
    decreases b.len(),
{
    if b.len() == 0 {
        None
    } else if b.last().0 == name {
        Some(b.last().1)
    } else {
        binding_of(b.drop_last(), name)
    }
}

/// No name is bound twice.
pub open spec fn names_distinct(b: Seq<(Seq<char>, SymbolId)>) -> bool {
    forall|i: int, j: int| 0 <= i < j < b.len() ==> b[i].0 != b[j].0
}

/// The kind recorded for `id` in a symbol table (the latest entry wins).
pub open spec fn kind_of(t: Seq<(SymbolId, SymbolKind)>, id: SymbolId) -> Option<SymbolKind>
    decreases t.len(),
{
    if t.len() == 0 {
        None
    } else if t.last().0 == id {
        Some(t.last().1)
    } else {
        kind_of(t.drop_last(), id)
    }
}

/// The names among `b` whose symbols are of the species sought.
pub open spec fn names_of_species(
    b: Seq<(Seq<char>, SymbolId)>,
    t: Seq<(SymbolId, SymbolKind)>,
    species: SymbolSpecies,
) -> Seq<Seq<char>>
    decreases b.len(),
{
    if b.len() == 0 {
        seq![]
    } else {
        let rest = names_of_species(b.drop_last(), t, species);
        match kind_of(t, b.last().1) {
            Some(k) => if kind_matches(k, species) {
                rest.push(b.last().0)
            } else {
                rest
            },
            None => rest,
        }
    }
}

/// The bindings of a scope, names taken by their characters.
pub open spec fn bindings_view(v: Seq<(String, SymbolId)>) -> Seq<(Seq<char>, SymbolId)> {
    v.map_values(|e: (String, SymbolId)| (e.0@, e.1))
}

impl Scopes {
    /// How many scopes there are.
    pub closed spec fn count(&self) -> nat {
        self.scopes@.len()
    }

    /// The enclosing scope of `s`.
    pub closed spec fn parent(&self, s: ScopeId) -> Option<ScopeId> {
        self.scopes@[s as int].parent
    }

    /// The names `s` binds, with their symbols, in the order first bound.
    pub closed spec fn bindings(&self, s: ScopeId) -> Seq<(Seq<char>, SymbolId)> {
        bindings_view(self.scopes@[s as int].by_name@)
    }

    /// The recorded symbols, oldest first.
    pub closed spec fn table(&self) -> Seq<(SymbolId, SymbolKind)> {
        self.symbols@
    }

    /// The structures whose members were declared, with the scope holding
    /// their members, oldest first.
    pub closed spec fn struct_scopes(&self) -> Seq<(SymbolId, ScopeId)> {
        self.struct_scopes@
    }

    pub closed spec fn wf(&self) -> bool {
        &&& forall|s: int| 0 <= s < self.scopes@.len() ==> match #[trigger] self.scopes@[s].parent {
            Some(p) => p < s,
            None => true,
        }
        &&& forall|s: int| 0 <= s < self.scopes@.len() ==> names_distinct(
            #[trigger] bindings_view(self.scopes@[s].by_name@),
        )
    }

    /// The symbol `name` refers to in scope `s`: its binding in `s`, else
    /// what it refers to in the enclosing scope.
    pub open spec fn resolve(&self, s: ScopeId, name: Seq<char>) -> Option<SymbolId>
        decreases s,
    {
        if s >= self.count() {
            None
        } else {
            match binding_of(self.bindings(s), name) {
                Some(id) => Some(id),
                None => match self.parent(s) {
                    Some(p) => if p < s {
                        self.resolve(p, name)
                    } else {
                        None
                    },
                    None => None,
                },
            }
        }
    }

    /// The outermost scope above `s`.
    pub open spec fn root(&self, s: ScopeId) -> ScopeId
        decreases s,
    {
        if s >= self.count() {
            s
        } else {
            match self.parent(s) {
                Some(p) => if p < s {
                    self.root(p)
                } else {
                    s
                },
                None => s,
            }
        }
    }

    /// The names of the given species visible from `s`: those of `s` first,
    /// then those of the enclosing scopes.
    pub open spec fn visible_names(&self, s: ScopeId, species: SymbolSpecies) -> Seq<Seq<char>>
        decreases s,
    {
        if s >= self.count() {
            seq![]
        } else {
            let own = names_of_species(self.bindings(s), self.table(), species);
            match self.parent(s) {
                Some(p) => if p < s {
                    own + self.visible_names(p, species)
                } else {
                    own
                },
                None => own,
            }
        }
    }

    /// A tree holding only the global scope, numbered 0.
    pub fn global() -> (r: Self)
        ensures
            r.wf(),
            r.count() == 1,
            r.parent(0) is None,
            r.bindings(0) == Seq::<(Seq<char>, SymbolId)>::empty(),
            r.table() == Seq::<(SymbolId, SymbolKind)>::empty(),
            r.struct_scopes() == Seq::<(SymbolId, ScopeId)>::empty(),
    {
        let mut scopes: Vec<ScopeData> = Vec::new();
        scopes.push(ScopeData { parent: None, by_name: Vec::new() });
        let r = Scopes { scopes, symbols: Vec::new(), struct_scopes: Vec::new(), records: Vec::new() };
        assert(r.bindings(0) =~= Seq::<(Seq<char>, SymbolId)>::empty());
        r
    }

    /// Adds a scope inside `parent` and gives its number.
    pub fn with_parent(&mut self, parent: ScopeId) -> (r: ScopeId)
        requires
            old(self).wf(),
            parent < old(self).count(),
        ensures
            final(self).wf(),
            r == old(self).count(),
            final(self).count() == old(self).count() + 1,
            final(self).parent(r) == Some(parent),
            final(self).bindings(r) == Seq::<(Seq<char>, SymbolId)>::empty(),
            forall|s: ScopeId| s < old(self).count() ==> final(self).parent(s) == old(self).parent(s)
                && final(self).bindings(s) == old(self).bindings(s),
            final(self).table() == old(self).table(),
            final(self).struct_scopes() == old(self).struct_scopes(),
            final(self).records() == old(self).records(),
    {
        let r = self.scopes.len();
        self.scopes.push(ScopeData { parent: Some(parent), by_name: Vec::new() });
        proof {
            assert(self.bindings(r) =~= Seq::<(Seq<char>, SymbolId)>::empty());
            assert forall|s: int| 0 <= s < self.scopes@.len() implies names_distinct(
                #[trigger] bindings_view(self.scopes@[s].by_name@),
            ) by {
                if s < r {
                    assert(self.scopes@[s] == old(self).scopes@[s]);
                }
            }
        }
        r
    }

    /// Records the kind of symbol `id`.
    pub fn insert_symbol(&mut self, id: SymbolId, kind: SymbolKind)
        requires
            old(self).wf(),
        ensures
            final(self).wf(),
            final(self).table() == old(self).table().push((id, kind)),
            final(self).struct_scopes() == old(self).struct_scopes(),
            final(self).records() == old(self).records(),
            final(self).count() == old(self).count(),
            forall|s: ScopeId| s < old(self).count() ==> final(self).parent(s) == old(self).parent(s)
                && final(self).bindings(s) == old(self).bindings(s),
    {
        self.symbols.push((id, kind));
    }
}

} // verus!

verus! {

proof fn lemma_binding_of_index(b: Seq<(Seq<char>, SymbolId)>, name: Seq<char>, i: int)
    requires
        names_distinct(b),
        0 <= i < b.len(),
        b[i].0 == name,
    ensures
        binding_of(b, name) == Some(b[i].1),
    decreases b.len(),
{
    if i < b.len() - 1 {
        lemma_binding_of_index(b.drop_last(), name, i);
    }
}

proof fn lemma_binding_of_absent(b: Seq<(Seq<char>, SymbolId)>, name: Seq<char>)
    requires
        forall|i: int| 0 <= i < b.len() ==> b[i].0 != name,
    ensures
        binding_of(b, name) is None,
    decreases b.len(),
{
    if b.len() > 0 {
        lemma_binding_of_absent(b.drop_last(), name);
    }
}

proof fn lemma_binding_of_update(b: Seq<(Seq<char>, SymbolId)>, i: int, id: SymbolId, name: Seq<char>)
    requires
        names_distinct(b),
        0 <= i < b.len(),
    ensures
        binding_of(b.update(i, (b[i].0, id)), name) == (if name == b[i].0 { Some(id) } else { binding_of(b, name) }),
        names_distinct(b.update(i, (b[i].0, id))),
    decreases b.len(),
{
    let u = b.update(i, (b[i].0, id));
    if i < b.len() - 1 {
        lemma_binding_of_update(b.drop_last(), i, id, name);
        assert(u.drop_last() =~= b.drop_last().update(i, (b[i].0, id)));
    } else {
        assert(u.drop_last() =~= b.drop_last());
        if name == b[i].0 {
        } else {
        }
    }
}

proof fn lemma_names_of_species_push(
    b: Seq<(Seq<char>, SymbolId)>,
    t: Seq<(SymbolId, SymbolKind)>,
    species: SymbolSpecies,
    e: (Seq<char>, SymbolId),
)
    ensures
        names_of_species(b.push(e), t, species) == names_of_species(b, t, species) + (match kind_of(t, e.1) {
            Some(k) => if kind_matches(k, species) { seq![e.0] } else { seq![] },
            None => seq![],
        }),
{
    assert(b.push(e).drop_last() =~= b);
    let rest = names_of_species(b, t, species);
    match kind_of(t, e.1) {
        Some(k) => if kind_matches(k, species) {
            assert(rest.push(e.0) =~= rest + seq![e.0]);
        } else {
            assert(rest =~= rest + Seq::<Seq<char>>::empty());
        },
        None => {
            assert(rest =~= rest + Seq::<Seq<char>>::empty());
        },
    }
}

impl Scopes {
    /// Where `name` is bound in scope `s`.
    fn position(&self, s: ScopeId, name: &String) -> (r: Option<usize>)
        requires
            self.wf(),
            s < self.count(),
        ensures
            match r {
                Some(i) => i < self.bindings(s).len() && self.bindings(s)[i as int].0 == name@ && binding_of(
                    self.bindings(s),
                    name@,
                ) == Some(self.bindings(s)[i as int].1),
                None => binding_of(self.bindings(s), name@) is None,
            },
    {
        let sc = &self.scopes[s];
        let ghost b = self.bindings(s);
        let mut i: usize = 0;
        assert(names_distinct(bindings_view(self.scopes@[s as int].by_name@)));
        while i < sc.by_name.len()
            invariant
                sc == self.scopes@[s as int],
                b == self.bindings(s),
                names_distinct(b),
                b.len() == sc.by_name@.len(),
                i <= sc.by_name@.len(),
                forall|j: int| 0 <= j < i ==> b[j].0 != name@,
            decreases sc.by_name@.len() - i,
        {
            if sc.by_name[i].0 == *name {
                proof {
                    assert(b[i as int].0 == sc.by_name@[i as int].0@);
                    lemma_binding_of_index(b, name@, i as int);
                }
                return Some(i);
            }
            proof {
                assert(b[i as int].0 == sc.by_name@[i as int].0@);
            }
            i += 1;
        }
        proof {
            lemma_binding_of_absent(b, name@);
        }
        None
    }

    /// The symbol bound to `name` in scope `s` itself.
    pub fn local(&self, s: ScopeId, name: &String) -> (r: Option<SymbolId>)
        requires
            self.wf(),
            s < self.count(),
        ensures
            r == binding_of(self.bindings(s), name@),
    {
        match self.position(s, name) {
            Some(i) => Some(self.scopes[s].by_name[i].1),
            None => None,
        }
    }

    /// Binds `name` to `id` in scope `s`, replacing an earlier binding of it.
    pub fn bind(&mut self, s: ScopeId, name: String, id: SymbolId)
        requires
            old(self).wf(),
            s < old(self).count(),
        ensures
            final(self).wf(),
            final(self).count() == old(self).count(),
            final(self).table() == old(self).table(),
            final(self).struct_scopes() == old(self).struct_scopes(),
            final(self).records() == old(self).records(),
            forall|n: Seq<char>| #[trigger] binding_of(final(self).bindings(s), n) == (if n == name@ {
                Some(id)
            } else {
                binding_of(old(self).bindings(s), n)
            }),
            binding_of(old(self).bindings(s), name@) is None ==> final(self).bindings(s) == old(self).bindings(
                s,
            ).push((name@, id)),
            forall|t: ScopeId| t < old(self).count() ==> final(self).parent(t) == old(self).parent(t),
            forall|t: ScopeId| t < old(self).count() && t != s ==> final(self).bindings(t) == old(self).bindings(t),
    {
        let pos = self.position(s, &name);
        let ghost b = self.bindings(s);
        let mut sc = self.scopes.remove(s);
        let ghost name_v = name@;
        match pos {
            Some(i) => {
                sc.by_name.set(i, (name, id));
                proof {
                    let nb = sc.by_name@.map_values(|e: (String, SymbolId)| (e.0@, e.1));
                    assert(nb =~= b.update(i as int, (b[i as int].0, id)));
                    assert forall|n: Seq<char>| #[trigger] binding_of(nb, n) == (if n == name_v {
                        Some(id)
                    } else {
                        binding_of(b, n)
                    }) by {
                        lemma_binding_of_update(b, i as int, id, n);
                    }
                    lemma_binding_of_update(b, i as int, id, name_v);
                }
            },
            None => {
                sc.by_name.push((name, id));
                proof {
                    let nb = sc.by_name@.map_values(|e: (String, SymbolId)| (e.0@, e.1));
                    assert(nb =~= b.push((name_v, id)));
                    assert(nb.drop_last() =~= b);
                    assert(names_distinct(nb)) by {
                        assert forall|x: int, y: int| 0 <= x < y < nb.len() implies nb[x].0 != nb[y].0 by {
                            if y == nb.len() - 1 {
                                if b[x].0 == name_v {
                                    lemma_binding_of_index(b, name_v, x);
                                }
                            }
                        }
                    }
                }
            },
        }
        self.scopes.insert(s, sc);
        proof {
            assert forall|t: int| 0 <= t < self.scopes@.len() implies match #[trigger] self.scopes@[t].parent {
                Some(p) => p < t,
                None => true,
            } by {
                if t != s {
                    assert(self.scopes@[t] == old(self).scopes@[t]);
                }
            }
            assert forall|t: int| 0 <= t < self.scopes@.len() implies names_distinct(
                #[trigger] bindings_view(self.scopes@[t].by_name@),
            ) by {
                if t != s {
                    assert(self.scopes@[t] == old(self).scopes@[t]);
                }
            }
            assert forall|t: ScopeId| t < old(self).count() implies final(self).parent(t) == old(self).parent(t) by {
                if t != s {
                    assert(self.scopes@[t as int] == old(self).scopes@[t as int]);
                }
            }
            assert forall|t: ScopeId| t < old(self).count() && t != s implies final(self).bindings(t) == old(
                self,
            ).bindings(t) by {
                assert(self.scopes@[t as int] == old(self).scopes@[t as int]);
            }
        }
    }

    /// The kind recorded for symbol `id`.
    pub fn symbol_kind(&self, id: SymbolId) -> (r: Option<SymbolKind>)
        ensures
            r == kind_of(self.table(), id),
    {
        let mut i: usize = self.symbols.len();
        assert(self.symbols@.subrange(0, i as int) =~= self.symbols@);
        while i > 0
            invariant
                i <= self.symbols@.len(),
                kind_of(self.symbols@, id) == kind_of(self.symbols@.subrange(0, i as int), id),
            decreases i,
        {
            let ghost pre = self.symbols@.subrange(0, i as int);
            assert(pre.drop_last() =~= self.symbols@.subrange(0, i - 1));
            if self.symbols[i - 1].0 == id {
                return Some(self.symbols[i - 1].1);
            }
            i -= 1;
        }
        None
    }
}

} // verus!

verus! {

/// The scope holding the members of structure `id`: the first one recorded.
pub open spec fn scope_of_struct(t: Seq<(SymbolId, ScopeId)>, id: SymbolId) -> Option<ScopeId>
    decreases t.len(),
{
    if t.len() == 0 {
        None
    } else if t[0].0 == id {
        Some(t[0].1)
    } else {
        scope_of_struct(t.drop_first(), id)
    }
}

/// Whether `s` holds the members of a recorded structure.
pub open spec fn holds_members(t: Seq<(SymbolId, ScopeId)>, s: ScopeId) -> bool {
    exists|i: int| 0 <= i < t.len() && #[trigger] t[i].1 == s
}

/// Recording more structures keeps what was recorded.
pub proof fn lemma_scope_of_struct_prefix(t: Seq<(SymbolId, ScopeId)>, u: Seq<(SymbolId, ScopeId)>, id: SymbolId)
    requires
        scope_of_struct(t, id) is Some,
    ensures
        scope_of_struct(t + u, id) == scope_of_struct(t, id),
    decreases t.len(),
{
    if t[0].0 != id {
        assert((t + u).drop_first() =~= t.drop_first() + u);
        lemma_scope_of_struct_prefix(t.drop_first(), u, id);
    }
}

/// Where `id` is found, it is found among the recorded entries.
pub proof fn lemma_scope_of_struct_holds(t: Seq<(SymbolId, ScopeId)>, id: SymbolId)
    ensures
        scope_of_struct(t, id) matches Some(s) ==> holds_members(t, s),
    decreases t.len(),
{
    if t.len() > 0 && t[0].0 != id {
        lemma_scope_of_struct_holds(t.drop_first(), id);
        if let Some(s) = scope_of_struct(t, id) {
            let i = choose|i: int| 0 <= i < t.drop_first().len() && #[trigger] t.drop_first()[i].1 == s;
            assert(t[i + 1].1 == s);
        }
    }
}

impl Scopes {
    /// The recorded details of symbols, oldest first.
    pub closed spec fn records(&self) -> Seq<(SymbolId, crate::scope::ast::Symbol)> {
        self.records@
    }

    /// The ids of the symbols whose details are recorded, oldest first.
    pub open spec fn record_ids(&self) -> Seq<SymbolId> {
        self.records().map_values(|e: (SymbolId, crate::scope::ast::Symbol)| e.0)
    }

    /// How many scopes there are.
    pub fn scope_count(&self) -> (r: usize)
        ensures
            r == self.count(),
    {
        self.scopes.len()
    }

    /// The enclosing scope of `s`.
    pub fn parent_of(&self, s: ScopeId) -> (r: Option<ScopeId>)
        requires
            s < self.count(),
        ensures
            r == self.parent(s),
    {
        self.scopes[s].parent
    }

    /// The scope holding the members of structure `id`, if recorded.
    pub fn struct_scope(&self, id: SymbolId) -> (r: Option<ScopeId>)
        ensures
            r == scope_of_struct(self.struct_scopes(), id),
    {
        let mut i: usize = 0;
        assert(self.struct_scopes@.skip(0) =~= self.struct_scopes@);
        while i < self.struct_scopes.len()
            invariant
                i <= self.struct_scopes@.len(),
                scope_of_struct(self.struct_scopes@, id) == scope_of_struct(self.struct_scopes@.skip(i as int), id),
            decreases self.struct_scopes@.len() - i,
        {
            assert(self.struct_scopes@.skip(i as int).drop_first() =~= self.struct_scopes@.skip(i + 1));
            if self.struct_scopes[i].0 == id {
                return Some(self.struct_scopes[i].1);
            }
            i += 1;
        }
        None
    }

    /// Whether `s` holds the members of a recorded structure.
    pub fn is_member_scope(&self, s: ScopeId) -> (r: bool)
        ensures
            r == holds_members(self.struct_scopes(), s),
    {
        let mut i: usize = 0;
        while i < self.struct_scopes.len()
            invariant
                i <= self.struct_scopes@.len(),
                forall|j: int| 0 <= j < i ==> #[trigger] self.struct_scopes@[j].1 != s,
            decreases self.struct_scopes@.len() - i,
        {
            if self.struct_scopes[i].1 == s {
                return true;
            }
            i += 1;
        }
        false
    }

    /// Records that the members of structure `id` are declared in `s`.
    pub fn record_struct(&mut self, id: SymbolId, s: ScopeId)
        ensures
            final(self).struct_scopes() == old(self).struct_scopes().push((id, s)),
            final(self).count() == old(self).count(),
            final(self).table() == old(self).table(),
            old(self).wf() ==> final(self).wf(),
            final(self).records() == old(self).records(),
            forall|t: ScopeId| t < old(self).count() ==> final(self).parent(t) == old(self).parent(t)
                && final(self).bindings(t) == old(self).bindings(t),
    {
        self.struct_scopes.push((id, s));
    }

    /// Records the details of symbol `id`.
    pub fn add_record(&mut self, id: SymbolId, sym: crate::scope::ast::Symbol)
        ensures
            final(self).records() == old(self).records().push((id, sym)),
            final(self).struct_scopes() == old(self).struct_scopes(),
            final(self).count() == old(self).count(),
            final(self).table() == old(self).table(),
            old(self).wf() ==> final(self).wf(),
            forall|t: ScopeId| t < old(self).count() ==> final(self).parent(t) == old(self).parent(t)
                && final(self).bindings(t) == old(self).bindings(t),
    {
        self.records.push((id, sym));
    }

    /// The recorded details of symbol `id`: the latest record of it.
    pub fn symbol(&self, id: SymbolId) -> (r: Option<&crate::scope::ast::Symbol>)
        ensures
            r is Some <==> self.record_ids().contains(id),
    {
        let mut i: usize = self.records.len();
        while i > 0
            invariant
                i <= self.records@.len(),
                forall|j: int| i <= j < self.records@.len() ==> #[trigger] self.records@[j].0 != id,
            decreases i,
        {
            if self.records[i - 1].0 == id {
                proof {
                    assert(self.record_ids()[i - 1] == id);
                }
                return Some(&self.records[i - 1].1);
            }
            i -= 1;
        }
        proof {
            if self.record_ids().contains(id) {
                let j = choose|j: int| 0 <= j < self.record_ids().len() && self.record_ids()[j] == id;
                assert(self.records@[j].0 == id);
            }
        }
        None
    }
}

} // verus!

verus! {

/// How far apart two names are: the distances of the characters at equal
/// positions, plus 26 for each character of the longer name past the end
/// of the shorter one.
pub open spec fn name_distance(a: Seq<char>, b: Seq<char>) -> int {
    distance_from(a, b, 0)
}

/// The distance counted from position `i` on.
pub open spec fn distance_from(a: Seq<char>, b: Seq<char>, i: nat) -> int
    decreases a.len() + b.len() - i,
{
    if i >= a.len() && i >= b.len() {
        0
    } else if i < a.len() && i < b.len() {
        let d = (a[i as int] as u32) as int - (b[i as int] as u32) as int;
        (if d < 0 { -d } else { d }) + distance_from(a, b, i + 1)
    } else {
        26 + distance_from(a, b, i + 1)
    }
}

proof fn lemma_distance_nonneg(a: Seq<char>, b: Seq<char>, i: nat)
    ensures
        distance_from(a, b, i) >= 0,
    decreases a.len() + b.len() - i,
{
    if !(i >= a.len() && i >= b.len()) {
        lemma_distance_nonneg(a, b, i + 1);
    }
}

/// The first of `names` that is closest to `target`, if there are any.
pub open spec fn is_closest(names: Seq<Seq<char>>, target: Seq<char>, i: int) -> bool {
    &&& 0 <= i < names.len()
    &&& forall|j: int| 0 <= j < names.len() ==> name_distance(target, names[i]) <= name_distance(target, #[trigger] names[j])
    &&& forall|j: int| 0 <= j < i ==> name_distance(target, names[i]) < name_distance(target, #[trigger] names[j])
}

impl Scopes {
    /// The distance between two names; the names must be close enough for
    /// it to fit in 32 bits.
    pub fn get_score(target: &String, test: &String) -> (r: u32)
        requires
            name_distance(target@, test@) <= u32::MAX,
        ensures
            r == name_distance(target@, test@),
    {
        let a = string_chars(target);
        let b = string_chars(test);
        let n = if a.len() > b.len() { a.len() } else { b.len() };
        let mut score: u32 = 0;
        let mut i: usize = 0;
        while i < n
            invariant
                a@ == target@,
                b@ == test@,
                n == (if a@.len() > b@.len() { a@.len() } else { b@.len() }),
                i <= n,
                score + distance_from(a@, b@, i as nat) == name_distance(a@, b@),
                name_distance(a@, b@) <= u32::MAX,
            decreases n - i,
        {
            proof {
                lemma_distance_nonneg(a@, b@, (i + 1) as nat);
            }
            let d: u32 = if i < a.len() && i < b.len() {
                let x = a[i] as u32;
                let y = b[i] as u32;
                if x >= y { x - y } else { y - x }
            } else {
                26
            };
            assert(distance_from(a@, b@, i as nat) == d + distance_from(a@, b@, (i + 1) as nat));
            score = score + d;
            i += 1;
        }
        score
    }

    /// The names of the given species bound in `s` itself.
    fn own_names(&self, s: ScopeId, species: SymbolSpecies) -> (r: Vec<String>)
        requires
            self.wf(),
            s < self.count(),
        ensures
            r@.map_values(|x: String| x@) == names_of_species(self.bindings(s), self.table(), species),
    {
        let sc = &self.scopes[s];
        let ghost b = self.bindings(s);
        let mut out: Vec<String> = Vec::new();
        let mut i: usize = 0;
        assert(out@.map_values(|x: String| x@) =~= names_of_species(b.take(0), self.table(), species));
        while i < sc.by_name.len()
            invariant
                sc == self.scopes@[s as int],
                b == self.bindings(s),
                b.len() == sc.by_name@.len(),
                i <= sc.by_name@.len(),
                out@.map_values(|x: String| x@) == names_of_species(b.take(i as int), self.table(), species),
            decreases sc.by_name@.len() - i,
        {
            let e = &sc.by_name[i];
            proof {
                assert(b[i as int] == (e.0@, e.1));
                assert(b.take(i + 1) =~= b.take(i as int).push(b[i as int]));
                lemma_names_of_species_push(b.take(i as int), self.table(), species, b[i as int]);
            }
            let ghost prev = out@.map_values(|x: String| x@);
            match self.symbol_kind(e.1) {
                Some(k) => {
                    if kind_matches_exec(k, species) {
                        out.push(e.0.clone());
                        assert(out@.map_values(|x: String| x@) =~= prev + seq![e.0@]);
                    } else {
                        assert(prev =~= prev + Seq::<Seq<char>>::empty());
                    }
                },
                None => {
                    assert(prev =~= prev + Seq::<Seq<char>>::empty());
                },
            }
            i += 1;
        }
        assert(b.take(sc.by_name@.len() as int) =~= b);
        out
    }

    /// The names of the given species visible from `s`, those of `s` first.
    pub fn collect_all(&self, s: ScopeId, species: SymbolSpecies) -> (r: Vec<String>)
        requires
            self.wf(),
            s < self.count(),
        ensures
            r@.map_values(|x: String| x@) == self.visible_names(s, species),
        decreases s,
    {
        let mut own = self.own_names(s, species);
        match self.scopes[s].parent {
            Some(p) => {
                let ghost o = own@.map_values(|x: String| x@);
                let rest = self.collect_all(p, species);
                let mut i: usize = 0;
                while i < rest.len()
                    invariant
                        i <= rest@.len(),
                        own@.map_values(|x: String| x@) == o + rest@.map_values(|x: String| x@).take(i as int),
                    decreases rest@.len() - i,
                {
                    let ghost prev = own@.map_values(|x: String| x@);
                    own.push(rest[i].clone());
                    proof {
                        let rv = rest@.map_values(|x: String| x@);
                        assert(rv.take(i + 1) =~= rv.take(i as int).push(rv[i as int]));
                        assert(own@.map_values(|x: String| x@) =~= prev.push(rest@[i as int]@));
                    }
                    i += 1;
                }
                assert(rest@.map_values(|x: String| x@).take(rest@.len() as int) =~= rest@.map_values(|x: String| x@));
                own
            },
            None => own,
        }
    }

    /// The first of `names` closest to `target`.
    pub fn find_closest_match(names: &Vec<String>, target: &String) -> (r: Option<usize>)
        requires
            forall|j: int| 0 <= j < names@.len() ==> name_distance(target@, #[trigger] names@[j]@) <= u32::MAX,
        ensures
            match r {
                Some(i) => is_closest(names@.map_values(|x: String| x@), target@, i as int),
                None => names@.len() == 0,
            },
    {
        let ghost nv = names@.map_values(|x: String| x@);
        if names.len() == 0 {
            return None;
        }
        let mut best: usize = 0;
        let mut best_score = Self::get_score(target, &names[0]);
        let mut i: usize = 1;
        while i < names.len()
            invariant
                nv == names@.map_values(|x: String| x@),
                nv.len() == names@.len(),
                forall|j: int| 0 <= j < names@.len() ==> name_distance(target@, #[trigger] names@[j]@) <= u32::MAX,
                1 <= i <= names@.len(),
                best < i,
                best_score == name_distance(target@, nv[best as int]),
                forall|j: int| 0 <= j < i ==> name_distance(target@, nv[best as int]) <= name_distance(target@, #[trigger] nv[j]),
                forall|j: int| 0 <= j < best ==> name_distance(target@, nv[best as int]) < name_distance(target@, #[trigger] nv[j]),
            decreases names@.len() - i,
        {
            let sc = Self::get_score(target, &names[i]);
            if sc < best_score {
                best = i;
                best_score = sc;
            }
            i += 1;
        }
        Some(best)
    }
}

} // verus!

verus! {

/// Whether every name of `names` is within a 32-bit distance of `target`.
pub open spec fn scores_fit(names: Seq<Seq<char>>, target: Seq<char>) -> bool {
    forall|j: int| 0 <= j < names.len() ==> name_distance(target, #[trigger] names[j]) <= u32::MAX
}

impl Scopes {
    /// Whether the distance of two names fits in 32 bits.
    pub fn score_fits(target: &String, test: &String) -> (r: bool)
        ensures
            r == (name_distance(target@, test@) <= u32::MAX),
    {
        let a = string_chars(target);
        let b = string_chars(test);
        let n = if a.len() > b.len() { a.len() } else { b.len() };
        let mut score: u64 = 0;
        let mut i: usize = 0;
        while i < n
            invariant
                a@ == target@,
                b@ == test@,
                n == (if a@.len() > b@.len() { a@.len() } else { b@.len() }),
                i <= n,
                score <= u32::MAX,
                score + distance_from(a@, b@, i as nat) == name_distance(a@, b@),
            decreases n - i,
        {
            proof {
                lemma_distance_nonneg(a@, b@, (i + 1) as nat);
            }
            let d: u64 = if i < a.len() && i < b.len() {
                let x = a[i] as u32;
                let y = b[i] as u32;
                if x >= y { (x - y) as u64 } else { (y - x) as u64 }
            } else {
                26
            };
            assert(distance_from(a@, b@, i as nat) == d + distance_from(a@, b@, (i + 1) as nat));
            if score + d > 0xFFFF_FFFF {
                return false;
            }
            score = score + d;
            i += 1;
        }
        true
    }

    /// Whether every name of `names` is within a 32-bit distance of `target`.
    pub fn all_fit(names: &Vec<String>, target: &String) -> (r: bool)
        ensures
            r == scores_fit(names@.map_values(|x: String| x@), target@),
    {
        let ghost nv = names@.map_values(|x: String| x@);
        let mut i: usize = 0;
        while i < names.len()
            invariant
                nv == names@.map_values(|x: String| x@),
                i <= names@.len(),
                forall|j: int| 0 <= j < i ==> name_distance(target@, #[trigger] nv[j]) <= u32::MAX,
            decreases names@.len() - i,
        {
            if !Self::score_fits(target, &names[i]) {
                assert(nv[i as int] == names@[i as int]@);
                return false;
            }
            assert(nv[i as int] == names@[i as int]@);
            i += 1;
        }
        true
    }
}

/// The hint given with an unknown name: the closest known name.
pub open spec fn closest_hint(m: Seq<char>) -> Seq<char> {
    "did you perhaps mean `"@ + m + "`?"@
}

impl Scopes {
    /// The symbol `name` refers to in scope `s`. When it refers to none, the
    /// error names it as an unknown type (for `Type`) or identifier, with the
    /// closest name of the species declared in the outermost scope as a hint.
    pub fn resolve_symbol_id<N: SymbolName>(&self, s: ScopeId, name: &N, species: SymbolSpecies) -> (r: Result<SymbolId, ParseErr>)
        requires
            self.wf(),
            s < self.count(),
        ensures
            match self.resolve(s, name.name_view()) {
                Some(id) => r == Ok::<SymbolId, ParseErr>(id),
                None => r matches Err(e) && {
                    let known = self.visible_names(self.root(s), species);
                    &&& e.ty@ == (if species == SymbolSpecies::Type {
                        ErrV::UnknownType(name.name_view())
                    } else {
                        ErrV::UnknownIdent(name.name_view())
                    })
                    &&& e.tail@ == Seq::<char>::empty()
                    &&& (e.ctx.line, e.ctx.start_pos, e.ctx.end_pos) == name.error_pos()
                    &&& (e.hint is None <==> (known.len() == 0 || !scores_fit(known, name.name_view())))
                    &&& e.hint matches Some(h) ==> exists|i: int| is_closest(known, name.name_view(), i) && h@
                        == closest_hint(#[trigger] known[i])
                },
            },
    {
        let n = name.get_name();
        let mut cur: ScopeId = s;
        loop
            invariant
                self.wf(),
                cur < self.count(),
                n@ == name.name_view(),
                self.resolve(s, name.name_view()) == self.resolve(cur, name.name_view()),
                self.root(s) == self.root(cur),
            ensures
                cur < self.count(),
                self.resolve(s, name.name_view()) == self.resolve(cur, name.name_view()),
                self.root(s) == self.root(cur),
                self.parent(cur) is None,
                binding_of(self.bindings(cur), name.name_view()) is None,
            decreases cur,
        {
            match self.local(cur, n) {
                Some(id) => {
                    return Ok(id);
                },
                None => {
                    match self.scopes[cur].parent {
                        Some(p) => {
                            proof {
                                assert(p < cur);
                            }
                            cur = p;
                        },
                        None => {
                            break;
                        },
                    }
                },
            }
        }
        proof {
            assert(self.root(cur) == cur);
            assert(self.resolve(cur, name.name_view()) is None);
        }
        let known = self.collect_all(cur, species);
        let ghost kv = known@.map_values(|x: String| x@);
        proof {
            assert(kv == self.visible_names(self.root(s), species));
        }
        let fit = Self::all_fit(&known, n);
        if !fit {
            let ty = if species == SymbolSpecies::Type {
                ParseErrType::UnknownType(n.clone())
            } else {
                ParseErrType::UnknownIdent(n.clone())
            };
            return Err(ParseErr { ty, ctx: name.get_error_token(), tail: String::new(), hint: None });
        }
        proof {
            assert forall|j: int| 0 <= j < known@.len() implies name_distance(n@, #[trigger] known@[j]@) <= u32::MAX by {
                assert(kv[j] == known@[j]@);
                assert(name_distance(n@, kv[j]) <= u32::MAX);
            }
        }
        let hint = match Self::find_closest_match(&known, n) {
            Some(i) => {
                let mut h: Vec<char> = Vec::new();
                push_lit(&mut h, "did you perhaps mean `");
                extend_chars(&mut h, &string_chars(&known[i]));
                push_lit(&mut h, "`?");
                proof {
                    assert(kv[i as int] == known@[i as int]@);
                    assert(h@ =~= closest_hint(kv[i as int]));
                }
                Some(string_from_chars(&h))
            },
            None => None,
        };
        let ty = if species == SymbolSpecies::Type {
            ParseErrType::UnknownType(n.clone())
        } else {
            ParseErrType::UnknownIdent(n.clone())
        };
        Err(ParseErr { ty, ctx: name.get_error_token(), tail: String::new(), hint })
    }
}

} // verus!

verus! {

proof fn lemma_distance_from_symmetric(a: Seq<char>, b: Seq<char>, i: nat)
    ensures
        distance_from(a, b, i) == distance_from(b, a, i),
    decreases a.len() + b.len() - i,
{
    if !(i >= a.len() && i >= b.len()) {
        lemma_distance_from_symmetric(a, b, i + 1);
    }
}

/// The distance between two names does not depend on their order, and is
/// never negative.
pub proof fn law_distance_symmetric(a: Seq<char>, b: Seq<char>)
    ensures
        name_distance(a, b) == name_distance(b, a),
        name_distance(a, b) >= 0,
{
    lemma_distance_from_symmetric(a, b, 0);
    lemma_distance_nonneg(a, b, 0);
}

proof fn lemma_distance_zero(a: Seq<char>, b: Seq<char>, i: nat)
    ensures
        distance_from(a, b, i) == 0 <==> ((a.len() == b.len() || (i >= a.len() && i >= b.len())) && forall|k: int|
            i <= k < a.len() ==> #[trigger] a[k] == b[k]),
    decreases a.len() + b.len() - i,
{
    if !(i >= a.len() && i >= b.len()) {
        lemma_distance_zero(a, b, i + 1);
        lemma_distance_nonneg(a, b, i + 1);
        if i < a.len() && i < b.len() {
            if a[i as int] != b[i as int] {
                let x = a[i as int];
                let y = b[i as int];
                vstd::utf8::char_u32_cast(x, x as u32);
                vstd::utf8::char_u32_cast(y, y as u32);
                assert((x as u32) != (y as u32));
            }
            if a.len() == b.len() && forall|k: int| i + 1 <= k < a.len() ==> #[trigger] a[k] == b[k] {
                if a[i as int] == b[i as int] {
                    assert forall|k: int| i <= k < a.len() implies #[trigger] a[k] == b[k] by {
                        if k > i {
                            assert(i + 1 <= k);
                        }
                    }
                }
            }
        }
    }
}

/// Two names are at distance 0 exactly when they are equal.
pub proof fn law_distance_zero_iff_equal(a: Seq<char>, b: Seq<char>)
    ensures
        name_distance(a, b) == 0 <==> a == b,
{
    lemma_distance_zero(a, b, 0);
    if name_distance(a, b) == 0 {
        assert(a =~= b);
    }
}

/// A name bound in a scope refers there to what it is bound to, whatever the
/// enclosing scopes bind.
pub proof fn law_innermost_binding_wins(scopes: Scopes, s: ScopeId, name: Seq<char>, id: SymbolId)
    requires
        s < scopes.count(),
        binding_of(scopes.bindings(s), name) == Some(id),
    ensures
        scopes.resolve(s, name) == Some(id),
{
}

/// A name not bound in a scope refers there to what it refers to in the
/// enclosing scope.
pub proof fn law_lookup_falls_through(scopes: Scopes, s: ScopeId, name: Seq<char>)
    requires
        scopes.wf(),
        s < scopes.count(),
        binding_of(scopes.bindings(s), name) is None,
    ensures
        scopes.resolve(s, name) == match scopes.parent(s) {
            Some(p) => scopes.resolve(p, name),
            None => None,
        },
{
    assert(scopes.parent(s) matches Some(p) ==> p < s);
}

} // verus!
