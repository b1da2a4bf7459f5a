//! Modifiers written before declarations, and the rules that decide which of
//! them a declaration accepts.
use vstd::prelude::*;
use crate::token::{Keyword, TokCtx};
use crate::text::{push_lit, lit_chars, chars_eq, extend_chars, string_from_chars, seq_join};
use crate::parser::err::ParseErrType;

verus! {

/// A modifier keyword.
#[derive(Copy, Clone, Debug, PartialEq, Eq, Structural, Hash)]
pub enum Modifier {
    Flat,
    Smooth,
    Noperspective,
    Enable,
    Require,
    Warn,
    Disable,
    Readonly,
    Writeonly,
    STD140,
    STD430,
}

/// How a shader extension is asked for.
#[derive(Clone, Debug)]
pub enum ExtensionBehavior {
    Enable,
    Require,
    Warn,
    Disable,
}

/// How a shader input is interpolated.
#[derive(Clone, Debug)]
pub enum InputInterpolation {
    Flat,
    Smooth,
    Noperspective,
}

/// A modifier of a uniform declaration.
#[derive(Clone, Debug)]
pub enum UniformModifier {
    Readonly,
    PackingType(PackingType),
}

/// The memory layout of a uniform or storage block.
#[derive(Clone, Debug)]
pub enum PackingType {
    STD140,
    STD430,
}

/// The modifier a keyword stands for; the modifier keywords come first
/// among the keywords.
pub open spec fn modifier_of_keyword(k: Keyword) -> Option<Modifier> {
    match k {
        Keyword::Flat => Some(Modifier::Flat),
        Keyword::Smooth => Some(Modifier::Smooth),
        Keyword::Noperspective => Some(Modifier::Noperspective),
        Keyword::Enable => Some(Modifier::Enable),
        Keyword::Require => Some(Modifier::Require),
        Keyword::Warn => Some(Modifier::Warn),
        Keyword::Disable => Some(Modifier::Disable),
        Keyword::Readonly => Some(Modifier::Readonly),
        Keyword::Writeonly => Some(Modifier::Writeonly),
        Keyword::STD140 => Some(Modifier::STD140),
        Keyword::STD430 => Some(Modifier::STD430),
        _ => None,
    }
}

/// How a modifier is displayed.
pub open spec fn modifier_text(m: Modifier) -> Seq<char> {
    match m {
        Modifier::Flat => "flat"@,
        Modifier::Smooth => "smooth"@,
        Modifier::Noperspective => "noperspective"@,
        Modifier::Enable => "enable"@,
        Modifier::Require => "require"@,
        Modifier::Warn => "warn"@,
        Modifier::Disable => "disable"@,
        Modifier::Readonly => "readonly"@,
        Modifier::Writeonly => "writeonly"@,
        Modifier::STD140 => "std140"@,
        Modifier::STD430 => "std430"@,
    }
}

impl Modifier {
    /// The modifier a keyword stands for, if it is one.
    pub fn from_keyword(k: Keyword) -> (r: Option<Modifier>)
        ensures
            r == modifier_of_keyword(k),
    {
        match k {
            Keyword::Flat => Some(Modifier::Flat),
            Keyword::Smooth => Some(Modifier::Smooth),
            Keyword::Noperspective => Some(Modifier::Noperspective),
            Keyword::Enable => Some(Modifier::Enable),
            Keyword::Require => Some(Modifier::Require),
            Keyword::Warn => Some(Modifier::Warn),
            Keyword::Disable => Some(Modifier::Disable),
            Keyword::Readonly => Some(Modifier::Readonly),
            Keyword::Writeonly => Some(Modifier::Writeonly),
            Keyword::STD140 => Some(Modifier::STD140),
            Keyword::STD430 => Some(Modifier::STD430),
            _ => None,
        }
    }

    /// Appends how this modifier is displayed.
    pub fn push_text(&self, v: &mut Vec<char>)
        ensures
            final(v)@ == old(v)@ + modifier_text(*self),
    {
        match self {
            Modifier::Flat => push_lit(v, "flat"),
            Modifier::Smooth => push_lit(v, "smooth"),
            Modifier::Noperspective => push_lit(v, "noperspective"),
            Modifier::Enable => push_lit(v, "enable"),
            Modifier::Require => push_lit(v, "require"),
            Modifier::Warn => push_lit(v, "warn"),
            Modifier::Disable => push_lit(v, "disable"),
            Modifier::Readonly => push_lit(v, "readonly"),
            Modifier::Writeonly => push_lit(v, "writeonly"),
            Modifier::STD140 => push_lit(v, "std140"),
            Modifier::STD430 => push_lit(v, "std430"),
        }
    }
}

/// `s` without the element `m`.
pub open spec fn without(s: Seq<Modifier>, m: Modifier) -> Seq<Modifier>
    decreases s.len(),
{
    if s.len() == 0 {
        s
    } else if s.last() == m {
        without(s.drop_last(), m)
    } else {
        without(s.drop_last(), m).push(s.last())
    }
}

proof fn lemma_without_absent(s: Seq<Modifier>, m: Modifier)
    requires
        !s.contains(m),
    ensures
        without(s, m) == s,
    decreases s.len(),
{
    if s.len() > 0 {
        assert(!s.drop_last().contains(m)) by {
            if s.drop_last().contains(m) {
                let k = choose|k: int| 0 <= k < s.drop_last().len() && s.drop_last()[k] == m;
                assert(s[k] == m);
            }
        }
        lemma_without_absent(s.drop_last(), m);
        assert(s.drop_last().push(s.last()) =~= s);
    }
}

/// Removing the only occurrence of `m`, at `k`.
proof fn lemma_without_at(s: Seq<Modifier>, m: Modifier, k: int)
    requires
        s.no_duplicates(),
        0 <= k < s.len(),
        s[k] == m,
    ensures
        without(s, m) == s.remove(k),
        without(s, m).no_duplicates(),
        forall|x: Modifier| #[trigger] without(s, m).contains(x) <==> s.contains(x) && x != m,
    decreases s.len(),
{
    if k == s.len() - 1 {
        assert(!s.drop_last().contains(m)) by {
            if s.drop_last().contains(m) {
                let j = choose|j: int| 0 <= j < s.drop_last().len() && s.drop_last()[j] == m;
                assert(s[j] == s[k]);
            }
        }
        lemma_without_absent(s.drop_last(), m);
        assert(s.remove(k) =~= s.drop_last());
    } else {
        lemma_without_at(s.drop_last(), m, k);
        assert(s.remove(k) =~= s.drop_last().remove(k).push(s.last()));
    }
    assert forall|x: Modifier| #[trigger] without(s, m).contains(x) <==> s.contains(x) && x != m by {
        if s.contains(x) && x != m {
            let j = choose|j: int| 0 <= j < s.len() && s[j] == x;
            if j < k {
                assert(s.remove(k)[j] == x);
            } else {
                assert(s.remove(k)[j - 1] == x);
            }
        }
        if without(s, m).contains(x) {
            let j = choose|j: int| 0 <= j < s.remove(k).len() && s.remove(k)[j] == x;
            if j < k {
                assert(s[j] == x);
            } else {
                assert(s[j + 1] == x);
            }
        }
    }
    assert(s.remove(k).no_duplicates()) by {
        assert forall|a: int, b: int| 0 <= a < b < s.remove(k).len() implies s.remove(k)[a] != s.remove(k)[b] by {
            let a1 = if a < k { a } else { a + 1 };
            let b1 = if b < k { b } else { b + 1 };
            assert(s.remove(k)[a] == s[a1]);
            assert(s.remove(k)[b] == s[b1]);
        }
    }
}

/// The modifiers written before a declaration, each with the position where
/// it was last written.
#[derive(Clone, Debug)]
pub struct Mods {
    mods: Vec<(Modifier, TokCtx)>,
}

impl Mods {
    /// The modifiers present, in the order they first appeared.
    pub closed spec fn present(&self) -> Seq<Modifier> {
        self.mods@.map_values(|p: (Modifier, TokCtx)| p.0)
    }

    pub closed spec fn wf(&self) -> bool {
        self.present().no_duplicates()
    }

    /// No modifiers.
    pub fn new() -> (r: Mods)
        ensures
            r.wf(),
            r.present() == Seq::<Modifier>::empty(),
    {
        let r = Mods { mods: Vec::new() };
        assert(r.present() =~= Seq::<Modifier>::empty());
        r
    }

    /// Records `m`, written at `ctx`; a modifier written again keeps its place.
    pub fn insert(&mut self, m: Modifier, ctx: TokCtx)
        requires
            old(self).wf(),
        ensures
            final(self).wf(),
            final(self).present() == (if old(self).present().contains(m) {
                old(self).present()
            } else {
                old(self).present().push(m)
            }),
    {
        let mut i: usize = 0;
        while i < self.mods.len()
            invariant
                i <= self.mods@.len(),
                self.mods@ == old(self).mods@,
                old(self).wf(),
                forall|j: int| 0 <= j < i ==> self.mods@[j].0 != m,
            decreases self.mods@.len() - i,
        {
            if self.mods[i].0 == m {
                let ghost before = self.present();
                self.mods.set(i, (m, ctx));
                assert(self.present() =~= before);
                assert(before[i as int] == m);
                return;
            }
            i += 1;
        }
        let ghost before = self.present();
        assert(!before.contains(m)) by {
            if before.contains(m) {
                let j = choose|j: int| 0 <= j < before.len() && before[j] == m;
                assert(self.mods@[j].0 == m);
            }
        }
        self.mods.push((m, ctx));
        assert(self.present() =~= before.push(m));
    }

    /// Takes `m` out, with the position it was written at.
    fn take(&mut self, m: Modifier) -> (r: Option<TokCtx>)
        requires
            old(self).wf(),
        ensures
            final(self).wf(),
            r is Some <==> old(self).present().contains(m),
            final(self).present() == without(old(self).present(), m),
    {
        let mut i: usize = 0;
        while i < self.mods.len()
            invariant
                i <= self.mods@.len(),
                self.mods@ == old(self).mods@,
                old(self).wf(),
                forall|j: int| 0 <= j < i ==> self.mods@[j].0 != m,
            decreases self.mods@.len() - i,
        {
            if self.mods[i].0 == m {
                let ghost before = self.present();
                let p = self.mods.remove(i);
                proof {
                    assert(before[i as int] == m);
                    lemma_without_at(before, m, i as int);
                    assert(self.present() =~= before.remove(i as int));
                }
                return Some(p.1);
            }
            i += 1;
        }
        proof {
            let before = self.present();
            assert(!before.contains(m)) by {
                if before.contains(m) {
                    let j = choose|j: int| 0 <= j < before.len() && before[j] == m;
                    assert(self.mods@[j].0 == m);
                }
            }
            lemma_without_absent(before, m);
        }
        None
    }

    /// Whether `m` is present.
    fn has(&self, m: Modifier) -> (r: bool)
        ensures
            r == self.present().contains(m),
    {
        let mut i: usize = 0;
        while i < self.mods.len()
            invariant
                i <= self.mods@.len(),
                forall|j: int| 0 <= j < i ==> self.mods@[j].0 != m,
            decreases self.mods@.len() - i,
        {
            if self.mods[i].0 == m {
                assert(self.present()[i as int] == m);
                return true;
            }
            i += 1;
        }
        assert(!self.present().contains(m)) by {
            if self.present().contains(m) {
                let j = choose|j: int| 0 <= j < self.present().len() && self.present()[j] == m;
                assert(self.mods@[j].0 == m);
            }
        }
        false
    }

    /// The first modifier present, with its position.
    fn first(self) -> (r: Option<(Modifier, TokCtx)>)
        ensures
            r is None <==> self.present().len() == 0,
            r matches Some(p) ==> p.0 == self.present()[0],
    {
        if self.mods.len() == 0 {
            None
        } else {
            let mut v = self.mods;
            Some(v.remove(0))
        }
    }
}

/// The name under which a rule records the modifier it chose.
pub type RuleKey = &'static str;

/// Whether two rule keys are spelled the same.
pub fn same_key(a: RuleKey, b: RuleKey) -> (r: bool)
    ensures
        r == (a@ == b@),
{
    let x = lit_chars(a);
    let y = lit_chars(b);
    chars_eq(&x, &y)
}

/// Mapping of entries with distinct keys.
pub open spec fn entries_map(s: Seq<(Seq<char>, Modifier)>) -> Map<Seq<char>, Modifier>
    decreases s.len(),
{
    if s.len() == 0 {
        Map::empty()
    } else {
        entries_map(s.drop_last()).insert(s.last().0, s.last().1)
    }
}

pub open spec fn keys_distinct(s: Seq<(Seq<char>, Modifier)>) -> bool {
    forall|i: int, j: int| 0 <= i < j < s.len() ==> s[i].0 != s[j].0
}

proof fn lemma_entries_map(s: Seq<(Seq<char>, Modifier)>)
    requires
        keys_distinct(s),
    ensures
        forall|i: int| 0 <= i < s.len() ==> #[trigger] entries_map(s).contains_key(s[i].0) && entries_map(s)[s[i].0] == s[i].1,
        forall|k: Seq<char>| #[trigger] entries_map(s).contains_key(k) ==> exists|i: int| 0 <= i < s.len() && s[i].0 == k,
    decreases s.len(),
{
    if s.len() > 0 {
        let t = s.drop_last();
        assert(keys_distinct(t));
        lemma_entries_map(t);
        assert forall|i: int| 0 <= i < s.len() implies #[trigger] entries_map(s).contains_key(s[i].0) && entries_map(s)[s[i].0] == s[i].1 by {
            if i < s.len() - 1 {
                assert(t[i] == s[i]);
                assert(s[i].0 != s.last().0);
                assert(entries_map(t).contains_key(t[i].0));
            }
        }
        assert forall|k: Seq<char>| #[trigger] entries_map(s).contains_key(k) implies exists|i: int| 0 <= i < s.len() && s[i].0 == k by {
            if k != s.last().0 {
                assert(entries_map(t).contains_key(k));
                let i = choose|i: int| 0 <= i < t.len() && t[i].0 == k;
                assert(s[i].0 == k);
            } else {
                assert(s[s.len() - 1].0 == k);
            }
        }
    }
}

/// Replacing the entry of an existing key changes its value in the mapping.
proof fn lemma_entries_update(s: Seq<(Seq<char>, Modifier)>, i: int, m: Modifier)
    requires
        keys_distinct(s),
        0 <= i < s.len(),
    ensures
        keys_distinct(s.update(i, (s[i].0, m))),
        entries_map(s.update(i, (s[i].0, m))) == entries_map(s).insert(s[i].0, m),
{
    let key = s[i].0;
    let after = s.update(i, (key, m));
    assert(keys_distinct(after)) by {
        assert forall|a: int, b: int| 0 <= a < b < after.len() implies after[a].0 != after[b].0 by {
            assert(after[a].0 == s[a].0);
            assert(after[b].0 == s[b].0);
        }
    }
    lemma_entries_map(s);
    lemma_entries_map(after);
    let target = entries_map(s).insert(key, m);
    assert forall|k: Seq<char>| #[trigger] target.dom().contains(k) == entries_map(after).dom().contains(k) && (target.dom().contains(k) ==> entries_map(after)[k] == target[k]) by {
        if entries_map(after).contains_key(k) {
            let j = choose|j: int| 0 <= j < after.len() && after[j].0 == k;
            assert(s[j].0 == k);
            assert(entries_map(s).contains_key(s[j].0));
        }
        if target.contains_key(k) {
            if k == key {
                assert(after[i].0 == k);
                assert(entries_map(after).contains_key(after[i].0));
            } else {
                let j = choose|j: int| 0 <= j < s.len() && s[j].0 == k;
                assert(j != i);
                assert(after[j] == s[j]);
                assert(entries_map(after).contains_key(after[j].0));
                assert(entries_map(s).contains_key(s[j].0));
            }
        }
    }
    assert(entries_map(after).dom() =~= target.dom());
    assert(entries_map(after) =~= target);
}

/// The modifiers chosen for a declaration, by rule.
#[derive(Clone, Debug)]
pub struct ResMods {
    found: Vec<(RuleKey, Modifier, Option<TokCtx>)>,
}

impl ResMods {
    closed spec fn entries(&self) -> Seq<(Seq<char>, Modifier)> {
        self.found@.map_values(|e: (RuleKey, Modifier, Option<TokCtx>)| (e.0@, e.1))
    }

    pub closed spec fn wf(&self) -> bool {
        keys_distinct(self.entries())
    }

    /// The chosen modifier of each rule.
    pub closed spec fn found_map(&self) -> Map<Seq<char>, Modifier> {
        entries_map(self.entries())
    }

    /// Nothing chosen.
    pub fn empty() -> (r: Self)
        ensures
            r.wf(),
            r.found_map() == Map::<Seq<char>, Modifier>::empty(),
    {
        let r = ResMods { found: Vec::new() };
        assert(r.entries() =~= Seq::<(Seq<char>, Modifier)>::empty());
        r
    }

    /// Index of the entry for `key`.
    fn position(&self, key: RuleKey) -> (r: Option<usize>)
        requires
            self.wf(),
        ensures
            r matches Some(i) ==> i < self.found@.len() && self.entries()[i as int].0 == key@,
            r is None ==> !self.found_map().contains_key(key@),
    {
        let mut i: usize = 0;
        while i < self.found.len()
            invariant
                i <= self.found@.len(),
                forall|j: int| 0 <= j < i ==> self.entries()[j].0 != key@,
            decreases self.found@.len() - i,
        {
            if same_key(self.found[i].0, key) {
                return Some(i);
            }
            i += 1;
        }
        proof {
            lemma_entries_map(self.entries());
        }
        None
    }

    /// The modifier chosen for `key`, if any.
    pub fn test(&self, key: RuleKey) -> (r: Option<Modifier>)
        requires
            self.wf(),
        ensures
            r == (if self.found_map().contains_key(key@) {
                Some(self.found_map()[key@])
            } else {
                None
            }),
    {
        proof {
            lemma_entries_map(self.entries());
        }
        match self.position(key) {
            Some(i) => Some(self.found[i].1),
            None => None,
        }
    }

    /// The modifier chosen for `key`, or `default`.
    pub fn test_or(&self, key: RuleKey, default: Modifier) -> (r: Modifier)
        requires
            self.wf(),
        ensures
            r == (if self.found_map().contains_key(key@) {
                self.found_map()[key@]
            } else {
                default
            }),
    {
        match self.test(key) {
            Some(m) => m,
            None => default,
        }
    }

    /// Records `m` for `key`, replacing what was there.
    fn put(&mut self, key: RuleKey, m: Modifier, ctx: Option<TokCtx>)
        requires
            old(self).wf(),
        ensures
            final(self).wf(),
            final(self).found_map() == old(self).found_map().insert(key@, m),
    {
        proof {
            lemma_entries_map(self.entries());
        }
        let ghost before = self.entries();
        match self.position(key) {
            Some(i) => {
                self.found.set(i, (key, m, ctx));
                proof {
                    assert(self.entries() =~= before.update(i as int, (before[i as int].0, m)));
                    lemma_entries_update(before, i as int, m);
                }
            },
            None => {
                self.found.push((key, m, ctx));
                proof {
                    let after = self.entries();
                    assert(after =~= before.push((key@, m)));
                    assert(after.drop_last() =~= before);
                    assert(keys_distinct(after)) by {
                        assert forall|a: int, b: int| 0 <= a < b < after.len() implies after[a].0 != after[b].0 by {
                            if b == after.len() - 1 {
                                assert(before[a].0 != key@) by {
                                    if before[a].0 == key@ {
                                        assert(entries_map(before).contains_key(before[a].0));
                                    }
                                }
                            }
                        }
                    }
                }
            },
        }
    }

    /// Chooses `default` for `key` if nothing was chosen for it.
    pub fn or_default(&mut self, key: RuleKey, default: Modifier)
        requires
            old(self).wf(),
        ensures
            final(self).wf(),
            final(self).found_map() == (if old(self).found_map().contains_key(key@) {
                old(self).found_map()
            } else {
                old(self).found_map().insert(key@, default)
            }),
    {
        match self.position(key) {
            Some(i) => {
                proof {
                    lemma_entries_map(self.entries());
                }
            },
            None => {
                self.put(key, default, None);
            },
        }
    }
}

/// A rule on the modifiers of a declaration.
pub enum ModRule {
    /// Exactly one of these is required.
    Either(Vec<Modifier>),
    /// This one is recorded when present.
    OnceOr(Modifier),
    /// At most one of these is allowed.
    EitherOr(Vec<Modifier>),
}

/// The mathematical value of a rule.
pub enum RuleV {
    Either(Seq<Modifier>),
    OnceOr(Modifier),
    EitherOr(Seq<Modifier>),
}

impl View for ModRule {
    type V = RuleV;

    open spec fn view(&self) -> RuleV {
        match self {
            ModRule::Either(v) => RuleV::Either(v@),
            ModRule::OnceOr(m) => RuleV::OnceOr(*m),
            ModRule::EitherOr(v) => RuleV::EitherOr(v@),
        }
    }
}

/// The rules a declaration applies to its modifiers, in order, each under a key.
pub struct ModsUsage {
    rules: Vec<(RuleKey, ModRule)>,
}

impl ModsUsage {
    /// The rules with their keys.
    pub closed spec fn rules(&self) -> Seq<(Seq<char>, RuleV)> {
        self.rules@.map_values(|r: (RuleKey, ModRule)| (r.0@, r.1@))
    }

    /// Adds a rule after the others.
    pub fn with_rule(self, key: RuleKey, rule: ModRule) -> (r: Self)
        ensures
            r.rules() == self.rules().push((key@, rule@)),
    {
        let mut rules = self.rules;
        rules.push((key, rule));
        let r = ModsUsage { rules };
        assert(r.rules() =~= self.rules().push((key@, rule@)));
        r
    }
}

impl Default for ModsUsage {
    fn default() -> (r: Self)
        ensures
            r.rules() == Seq::<(Seq<char>, RuleV)>::empty(),
    {
        let r = ModsUsage { rules: Vec::new() };
        assert(r.rules() =~= Seq::<(Seq<char>, RuleV)>::empty());
        r
    }
}

/// Why the modifiers of a declaration were refused.
pub enum ModFault {
    /// A second modifier of a rule that allows one; the rule's options, and
    /// whether they are quoted in the hint.
    Dup(Modifier, Seq<Modifier>, bool),
    /// None of the options of a rule that requires one.
    Missing(Seq<Modifier>),
    /// A modifier that no rule took.
    Unhandled(Modifier),
}

/// Going through the options of a rule: each one present is taken and
/// recorded under `key`; a second one is refused.
pub open spec fn scan_options(
    opts: Seq<Modifier>,
    j: int,
    key: Seq<char>,
    present: Seq<Modifier>,
    found: Map<Seq<char>, Modifier>,
    success: bool,
    ticks: bool,
) -> Result<(Seq<Modifier>, Map<Seq<char>, Modifier>, bool), ModFault>
    decreases opts.len() - j,
{
    if j < 0 || j >= opts.len() {
        Ok((present, found, success))
    } else if present.contains(opts[j]) {
        if success {
            Err(ModFault::Dup(opts[j], opts, ticks))
        } else {
            scan_options(opts, j + 1, key, without(present, opts[j]), found.insert(key, opts[j]), true, ticks)
        }
    } else {
        scan_options(opts, j + 1, key, present, found, success, ticks)
    }
}

/// Applying the rules from the `i`-th on.
pub open spec fn apply_rules(
    rules: Seq<(Seq<char>, RuleV)>,
    i: int,
    present: Seq<Modifier>,
    found: Map<Seq<char>, Modifier>,
) -> Result<(Seq<Modifier>, Map<Seq<char>, Modifier>), ModFault>
    decreases rules.len() - i,
{
    if i < 0 || i >= rules.len() {
        Ok((present, found))
    } else {
        let key = rules[i].0;
        match rules[i].1 {
            RuleV::Either(opts) => match scan_options(opts, 0, key, present, found, false, true) {
                Err(e) => Err(e),
                Ok(t) => if !t.2 {
                    Err(ModFault::Missing(opts))
                } else {
                    apply_rules(rules, i + 1, t.0, t.1)
                },
            },
            RuleV::OnceOr(m) => apply_rules(
                rules,
                i + 1,
                present,
                if present.contains(m) { found.insert(key, m) } else { found },
            ),
            RuleV::EitherOr(opts) => match scan_options(opts, 0, key, present, found, false, false) {
                Err(e) => Err(e),
                Ok(t) => apply_rules(rules, i + 1, t.0, t.1),
            },
        }
    }
}

/// The outcome of checking the modifiers `present` (in order of appearance)
/// against `rules`: the chosen modifier per rule key, or the first fault.
/// Modifiers left over after all rules are refused, the first one named.
pub open spec fn validate_spec(present: Seq<Modifier>, rules: Seq<(Seq<char>, RuleV)>) -> Result<
    Map<Seq<char>, Modifier>,
    ModFault,
> {
    match apply_rules(rules, 0, present, Map::empty()) {
        Err(e) => Err(e),
        Ok(t) => if t.0.len() > 0 {
            Err(ModFault::Unhandled(t.0[0]))
        } else {
            Ok(t.1)
        },
    }
}

/// Nothing but what was in `p0` is left in `present` or chosen in `found`.
spec fn drawn_from(present: Seq<Modifier>, found: Map<Seq<char>, Modifier>, p0: Seq<Modifier>) -> bool {
    &&& forall|x: Modifier| #[trigger] present.contains(x) ==> p0.contains(x)
    &&& forall|k: Seq<char>| #[trigger] found.contains_key(k) ==> p0.contains(found[k])
}

proof fn lemma_without_within(s: Seq<Modifier>, m: Modifier, x: Modifier)
    requires
        without(s, m).contains(x),
    ensures
        s.contains(x),
    decreases s.len(),
{
    if s.len() > 0 {
        if s.last() == m {
            lemma_without_within(s.drop_last(), m, x);
        } else {
            let w = without(s.drop_last(), m);
            if w.contains(x) {
                lemma_without_within(s.drop_last(), m, x);
            }
        }
        if s.drop_last().contains(x) {
            let j = choose|j: int| 0 <= j < s.drop_last().len() && s.drop_last()[j] == x;
            assert(s[j] == x);
        } else {
            assert(s[s.len() - 1] == x);
        }
    }
}

proof fn lemma_scan_drawn(
    opts: Seq<Modifier>,
    j: int,
    key: Seq<char>,
    present: Seq<Modifier>,
    found: Map<Seq<char>, Modifier>,
    success: bool,
    ticks: bool,
    p0: Seq<Modifier>,
)
    requires
        drawn_from(present, found, p0),
    ensures
        scan_options(opts, j, key, present, found, success, ticks) matches Ok(t) ==> drawn_from(t.0, t.1, p0),
    decreases opts.len() - j,
{
    if 0 <= j < opts.len() && present.contains(opts[j]) && !success {
        let p1 = without(present, opts[j]);
        let f1 = found.insert(key, opts[j]);
        assert forall|x: Modifier| #[trigger] p1.contains(x) implies p0.contains(x) by {
            lemma_without_within(present, opts[j], x);
        }
        assert forall|k: Seq<char>| #[trigger] f1.contains_key(k) implies p0.contains(f1[k]) by {
            if k != key {
                assert(found.contains_key(k));
            }
        }
        lemma_scan_drawn(opts, j + 1, key, p1, f1, true, ticks, p0);
    } else if 0 <= j < opts.len() && !present.contains(opts[j]) {
        lemma_scan_drawn(opts, j + 1, key, present, found, success, ticks, p0);
    }
}

proof fn lemma_apply_drawn(
    rules: Seq<(Seq<char>, RuleV)>,
    i: int,
    present: Seq<Modifier>,
    found: Map<Seq<char>, Modifier>,
    p0: Seq<Modifier>,
)
    requires
        drawn_from(present, found, p0),
    ensures
        apply_rules(rules, i, present, found) matches Ok(t) ==> drawn_from(t.0, t.1, p0),
    decreases rules.len() - i,
{
    if 0 <= i < rules.len() {
        let key = rules[i].0;
        match rules[i].1 {
            RuleV::Either(opts) => {
                lemma_scan_drawn(opts, 0, key, present, found, false, true, p0);
                if let Ok(t) = scan_options(opts, 0, key, present, found, false, true) {
                    lemma_apply_drawn(rules, i + 1, t.0, t.1, p0);
                }
            },
            RuleV::OnceOr(m) => {
                let f1 = if present.contains(m) { found.insert(key, m) } else { found };
                assert forall|k: Seq<char>| #[trigger] f1.contains_key(k) implies p0.contains(f1[k]) by {
                    if present.contains(m) && k == key {
                        assert(present.contains(m));
                    } else {
                        assert(found.contains_key(k));
                    }
                }
                lemma_apply_drawn(rules, i + 1, present, f1, p0);
            },
            RuleV::EitherOr(opts) => {
                lemma_scan_drawn(opts, 0, key, present, found, false, false, p0);
                if let Ok(t) = scan_options(opts, 0, key, present, found, false, false) {
                    lemma_apply_drawn(rules, i + 1, t.0, t.1, p0);
                }
            },
        }
    }
}

/// Every modifier that a successful check of the modifiers chooses is one
/// that was written.
pub proof fn law_chosen_were_written(present: Seq<Modifier>, rules: Seq<(Seq<char>, RuleV)>)
    ensures
        validate_spec(present, rules) matches Ok(m) ==> forall|k: Seq<char>| #[trigger] m.contains_key(k)
            ==> present.contains(m[k]),
{
    assert(drawn_from(present, Map::empty(), present));
    lemma_apply_drawn(rules, 0, present, Map::empty(), present);
}

proof fn lemma_without_keeps(s: Seq<Modifier>, m: Modifier, x: Modifier)
    requires
        s.contains(x),
        x != m,
    ensures
        without(s, m).contains(x),
    decreases s.len(),
{
    if s.len() > 0 {
        if s.last() == x {
            let w = without(s.drop_last(), m);
            assert(w.push(x)[w.len() as int] == x);
        } else {
            let j = choose|j: int| 0 <= j < s.len() && s[j] == x;
            assert(j < s.len() - 1);
            assert(s.drop_last()[j] == x);
            lemma_without_keeps(s.drop_last(), m, x);
            if s.last() != m {
                let w = without(s.drop_last(), m);
                let k = choose|k: int| 0 <= k < w.len() && w[k] == x;
                assert(w.push(s.last())[k] == x);
            }
        }
    }
}

/// Every modifier of `p0` is still to be handled in `present` or was chosen
/// under some key of `found`.
spec fn covered(present: Seq<Modifier>, found: Map<Seq<char>, Modifier>, p0: Seq<Modifier>) -> bool {
    forall|x: Modifier| #[trigger] p0.contains(x) ==> present.contains(x) || exists|k: Seq<char>|
        #[trigger] found.contains_key(k) && found[k] == x
}

proof fn lemma_scan_covered(
    opts: Seq<Modifier>,
    j: int,
    key: Seq<char>,
    present: Seq<Modifier>,
    found: Map<Seq<char>, Modifier>,
    success: bool,
    ticks: bool,
    p0: Seq<Modifier>,
)
    requires
        covered(present, found, p0),
        !success ==> !found.contains_key(key),
    ensures
        scan_options(opts, j, key, present, found, success, ticks) matches Ok(t) ==> {
            &&& covered(t.0, t.1, p0)
            &&& forall|k: Seq<char>| #[trigger] t.1.contains_key(k) ==> found.contains_key(k) || k == key
        },
    decreases opts.len() - j,
{
    if 0 <= j < opts.len() && present.contains(opts[j]) && !success {
        let o = opts[j];
        let p1 = without(present, o);
        let f1 = found.insert(key, o);
        assert forall|x: Modifier| #[trigger] p0.contains(x) implies p1.contains(x) || exists|k: Seq<char>|
            #[trigger] f1.contains_key(k) && f1[k] == x by {
            if present.contains(x) {
                if x == o {
                    assert(f1.contains_key(key) && f1[key] == x);
                } else {
                    lemma_without_keeps(present, o, x);
                }
            } else {
                let k = choose|k: Seq<char>| #[trigger] found.contains_key(k) && found[k] == x;
                assert(k != key);
                assert(f1.contains_key(k) && f1[k] == x);
            }
        }
        lemma_scan_covered(opts, j + 1, key, p1, f1, true, ticks, p0);
    } else if 0 <= j < opts.len() && !present.contains(opts[j]) {
        lemma_scan_covered(opts, j + 1, key, present, found, success, ticks, p0);
    }
}

/// No two rules share a key.
pub open spec fn keys_unique(rules: Seq<(Seq<char>, RuleV)>) -> bool {
    forall|a: int, b: int| 0 <= a < b < rules.len() ==> rules[a].0 != rules[b].0
}

proof fn lemma_apply_covered(
    rules: Seq<(Seq<char>, RuleV)>,
    i: int,
    present: Seq<Modifier>,
    found: Map<Seq<char>, Modifier>,
    p0: Seq<Modifier>,
)
    requires
        0 <= i,
        keys_unique(rules),
        covered(present, found, p0),
        forall|k: Seq<char>| #[trigger] found.contains_key(k) ==> exists|l: int| 0 <= l < i && l < rules.len() && rules[l].0 == k,
    ensures
        apply_rules(rules, i, present, found) matches Ok(t) ==> covered(t.0, t.1, p0),
    decreases rules.len() - i,
{
    if i < rules.len() {
        let key = rules[i].0;
        assert(!found.contains_key(key)) by {
            if found.contains_key(key) {
                let l = choose|l: int| 0 <= l < i && l < rules.len() && rules[l].0 == key;
                assert(rules[l].0 != rules[i].0);
            }
        }
        match rules[i].1 {
            RuleV::Either(opts) => {
                lemma_scan_covered(opts, 0, key, present, found, false, true, p0);
                if let Ok(t) = scan_options(opts, 0, key, present, found, false, true) {
                    assert forall|k: Seq<char>| #[trigger] t.1.contains_key(k) implies exists|l: int| 0 <= l < i + 1 && l < rules.len() && rules[l].0 == k by {
                        if k == key {
                            assert(rules[i].0 == k);
                        } else {
                            assert(found.contains_key(k));
                        }
                    }
                    lemma_apply_covered(rules, i + 1, t.0, t.1, p0);
                }
            },
            RuleV::OnceOr(m) => {
                let f1 = if present.contains(m) { found.insert(key, m) } else { found };
                assert forall|x: Modifier| #[trigger] p0.contains(x) implies present.contains(x) || exists|k: Seq<char>|
                    #[trigger] f1.contains_key(k) && f1[k] == x by {
                    if !present.contains(x) {
                        let k = choose|k: Seq<char>| #[trigger] found.contains_key(k) && found[k] == x;
                        assert(k != key);
                        assert(f1.contains_key(k) && f1[k] == x);
                    }
                }
                assert forall|k: Seq<char>| #[trigger] f1.contains_key(k) implies exists|l: int| 0 <= l < i + 1 && l < rules.len() && rules[l].0 == k by {
                    if k == key {
                        assert(rules[i].0 == k);
                    } else {
                        assert(found.contains_key(k));
                    }
                }
                lemma_apply_covered(rules, i + 1, present, f1, p0);
            },
            RuleV::EitherOr(opts) => {
                lemma_scan_covered(opts, 0, key, present, found, false, false, p0);
                if let Ok(t) = scan_options(opts, 0, key, present, found, false, false) {
                    assert forall|k: Seq<char>| #[trigger] t.1.contains_key(k) implies exists|l: int| 0 <= l < i + 1 && l < rules.len() && rules[l].0 == k by {
                        if k == key {
                            assert(rules[i].0 == k);
                        } else {
                            assert(found.contains_key(k));
                        }
                    }
                    lemma_apply_covered(rules, i + 1, t.0, t.1, p0);
                }
            },
        }
    }
}

/// When no two rules share a key, a successful check of the modifiers
/// chooses every modifier that was written: none is silently dropped.
pub proof fn law_written_are_chosen(present: Seq<Modifier>, rules: Seq<(Seq<char>, RuleV)>)
    requires
        keys_unique(rules),
    ensures
        validate_spec(present, rules) matches Ok(m) ==> forall|x: Modifier| #[trigger] present.contains(x) ==> exists|k: Seq<char>|
            #[trigger] m.contains_key(k) && m[k] == x,
{
    assert(covered(present, Map::empty(), present));
    lemma_apply_covered(rules, 0, present, Map::empty(), present);
    let v = validate_spec(present, rules);
    if v is Ok {
        let a = apply_rules(rules, 0, present, Map::empty());
        assert(a is Ok);
        let t = a->Ok_0;
        assert(t.0.len() == 0);
        let m = v->Ok_0;
        assert(m == t.1);
        assert(covered(t.0, t.1, present));
        assert forall|x: Modifier| #[trigger] present.contains(x) implies exists|k: Seq<char>|
            #[trigger] m.contains_key(k) && m[k] == x by {
            assert(!t.0.contains(x));
        }
    }
}

/// Each modifier is the meaning of the keyword spelled as the modifier is
/// displayed.
pub proof fn law_modifier_keyword(m: Modifier)
    ensures
        exists|k: Keyword| modifier_of_keyword(k) == Some(m) && #[trigger] crate::token::keyword_text(k) == modifier_text(m),
{
    reveal_strlit("flat");
    reveal_strlit("smooth");
    reveal_strlit("noperspective");
    reveal_strlit("enable");
    reveal_strlit("require");
    reveal_strlit("warn");
    reveal_strlit("disable");
    reveal_strlit("readonly");
    reveal_strlit("writeonly");
    reveal_strlit("std140");
    reveal_strlit("std430");
    let k = match m {
        Modifier::Flat => Keyword::Flat,
        Modifier::Smooth => Keyword::Smooth,
        Modifier::Noperspective => Keyword::Noperspective,
        Modifier::Enable => Keyword::Enable,
        Modifier::Require => Keyword::Require,
        Modifier::Warn => Keyword::Warn,
        Modifier::Disable => Keyword::Disable,
        Modifier::Readonly => Keyword::Readonly,
        Modifier::Writeonly => Keyword::Writeonly,
        Modifier::STD140 => Keyword::STD140,
        Modifier::STD430 => Keyword::STD430,
    };
    assert(crate::token::keyword_text(k) =~= modifier_text(m));
}

/// The error kind of a fault.
pub open spec fn fault_kind(f: ModFault) -> crate::parser::err::ErrV {
    match f {
        ModFault::Dup(m, _, _) => crate::parser::err::ErrV::IllegalModifier(m),
        ModFault::Missing(_) => crate::parser::err::ErrV::MissingModifier,
        ModFault::Unhandled(m) => crate::parser::err::ErrV::IllegalModifier(m),
    }
}

/// How one option is listed in a hint.
pub open spec fn option_item(m: Modifier, ticks: bool) -> Seq<char> {
    if ticks {
        "`"@ + modifier_text(m) + "`"@
    } else {
        modifier_text(m)
    }
}

/// The options of a rule, listed with `, ` between them.
pub open spec fn options_text(opts: Seq<Modifier>, ticks: bool) -> Seq<char> {
    seq_join(opts.map_values(|m: Modifier| option_item(m, ticks)), ", "@)
}

/// The hint that comes with a fault.
pub open spec fn fault_hint(f: ModFault) -> Seq<char> {
    match f {
        ModFault::Dup(m, opts, ticks) => "only one of "@ + options_text(opts, ticks)
            + " is permitted. Consider removing `"@ + modifier_text(m) + "`"@,
        ModFault::Missing(opts) => "one of "@ + options_text(opts, true) + " is required. Consider adding `"@
            + modifier_text(if opts.len() > 0 { opts[0] } else { Modifier::Enable }) + "`"@,
        ModFault::Unhandled(m) => "`"@ + modifier_text(m) + "` is not a valid modifier in this context"@,
    }
}

/// Appends the options of a rule, listed as in a hint.
fn push_options(v: &mut Vec<char>, opts: &Vec<Modifier>, ticks: bool)
    ensures
        final(v)@ == old(v)@ + options_text(opts@, ticks),
{
    let ghost parts = opts@.map_values(|m: Modifier| option_item(m, ticks));
    let mut acc: Vec<char> = Vec::new();
    let mut i: usize = 0;
    while i < opts.len()
        invariant
            i <= opts@.len(),
            parts == opts@.map_values(|m: Modifier| option_item(m, ticks)),
            acc@ == seq_join(parts.take(i as int), ", "@),
        decreases opts@.len() - i,
    {
        if i > 0 {
            push_lit(&mut acc, ", ");
        }
        if ticks {
            push_lit(&mut acc, "`");
            opts[i].push_text(&mut acc);
            push_lit(&mut acc, "`");
        } else {
            opts[i].push_text(&mut acc);
        }
        proof {
            assert(parts.take(i + 1).drop_last() =~= parts.take(i as int));
            assert(parts.take(i + 1).last() == parts[i as int]);
            if i == 0 {
                assert(parts.take(1).len() == 1);
            }
        }
        i += 1;
        assert(acc@ =~= seq_join(parts.take(i as int), ", "@));
    }
    assert(parts.take(opts@.len() as int) =~= parts);
    extend_chars(v, &acc);
}

/// A refusal of the modifiers: its kind, the position of the offending
/// modifier (none when one is missing), and the hint.
pub struct ModsFault {
    pub ty: ParseErrType,
    pub ctx: Option<TokCtx>,
    pub hint: String,
}

/// Records, for `key`, the options of a rule that are present; refuses a
/// second one when `ticks`... as the rule's kind says.
fn scan_exec(
    mods: &mut Mods,
    found: &mut ResMods,
    key: RuleKey,
    opts: &Vec<Modifier>,
    ticks: bool,
) -> (r: Result<bool, ModsFault>)
    requires
        old(mods).wf(),
        old(found).wf(),
    ensures
        final(mods).wf(),
        final(found).wf(),
        match scan_options(opts@, 0, key@, old(mods).present(), old(found).found_map(), false, ticks) {
            Ok(t) => r == Ok::<bool, ModsFault>(t.2) && final(mods).present() == t.0 && final(found).found_map() == t.1,
            Err(e) => r matches Err(f) && f.ty@ == fault_kind(e) && f.hint@ == fault_hint(e) && f.ctx is Some
                && e is Dup,
        },
{
    let mut success = false;
    let mut j: usize = 0;
    while j < opts.len()
        invariant
            j <= opts@.len(),
            mods.wf(),
            found.wf(),
            scan_options(opts@, j as int, key@, mods.present(), found.found_map(), success, ticks)
                == scan_options(opts@, 0, key@, old(mods).present(), old(found).found_map(), false, ticks),
        decreases opts@.len() - j,
    {
        let o = opts[j];
        let had = mods.has(o);
        if had {
            if success {
                let ctx = mods.take(o);
                let mut hint: Vec<char> = Vec::new();
                push_lit(&mut hint, "only one of ");
                push_options(&mut hint, opts, ticks);
                push_lit(&mut hint, " is permitted. Consider removing `");
                o.push_text(&mut hint);
                push_lit(&mut hint, "`");
                let ghost e = ModFault::Dup(o, opts@, ticks);
                assert(hint@ =~= fault_hint(e));
                return Err(ModsFault { ty: ParseErrType::IllegalModifier(o), ctx, hint: string_from_chars(&hint) });
            }
            let ctx = mods.take(o);
            found.put(key, o, ctx);
            success = true;
        }
        j += 1;
    }
    Ok(success)
}

/// Checks the modifiers of a declaration against the rules of its usage.
pub fn check_mods(mods: Mods, usage: ModsUsage) -> (r: Result<ResMods, ModsFault>)
    requires
        mods.wf(),
    ensures
        match validate_spec(mods.present(), usage.rules()) {
            Ok(m) => r matches Ok(res) && res.wf() && res.found_map() == m,
            Err(e) => r matches Err(f) && f.ty@ == fault_kind(e) && f.hint@ == fault_hint(e) && (f.ctx is None
                <==> e is Missing),
        },
{
    let ghost rules = usage.rules();
    let ghost p0 = mods.present();
    let mut cur = mods;
    let mut found = ResMods::empty();
    let mut i: usize = 0;
    while i < usage.rules.len()
        invariant
            i <= usage.rules@.len(),
            rules == usage.rules(),
            cur.wf(),
            found.wf(),
            p0 == mods.present(),
            apply_rules(rules, i as int, cur.present(), found.found_map()) == apply_rules(
                rules,
                0,
                p0,
                Map::empty(),
            ),
        decreases usage.rules@.len() - i,
    {
        let key = usage.rules[i].0;
        proof {
            assert(rules[i as int] == (key@, usage.rules@[i as int].1@));
        }
        match &usage.rules[i].1 {
            ModRule::Either(opts) => {
                let s = scan_exec(&mut cur, &mut found, key, opts, true);
                match s {
                    Err(f) => {
                        return Err(f);
                    },
                    Ok(success) => {
                        if !success {
                            let mut hint: Vec<char> = Vec::new();
                            push_lit(&mut hint, "one of ");
                            push_options(&mut hint, opts, true);
                            push_lit(&mut hint, " is required. Consider adding `");
                            let rec = if opts.len() > 0 { opts[0] } else { Modifier::Enable };
                            rec.push_text(&mut hint);
                            push_lit(&mut hint, "`");
                            let ghost e = ModFault::Missing(opts@);
                            assert(hint@ =~= fault_hint(e));
                            return Err(ModsFault { ty: ParseErrType::MissingModifier, ctx: None, hint: string_from_chars(&hint) });
                        }
                    },
                }
            },
            ModRule::OnceOr(m) => {
                if cur.has(*m) {
                    found.put(key, *m, None);
                }
            },
            ModRule::EitherOr(opts) => {
                let s = scan_exec(&mut cur, &mut found, key, opts, false);
                if let Err(f) = s {
                    return Err(f);
                }
            },
        }
        i += 1;
    }
    let ghost left = cur.present();
    match cur.first() {
        Some(p) => {
            let m = p.0;
            let mut hint: Vec<char> = Vec::new();
            push_lit(&mut hint, "`");
            m.push_text(&mut hint);
            push_lit(&mut hint, "` is not a valid modifier in this context");
            let ghost e = ModFault::Unhandled(m);
            assert(hint@ =~= fault_hint(e));
            Err(ModsFault { ty: ParseErrType::IllegalModifier(m), ctx: Some(p.1), hint: string_from_chars(&hint) })
        },
        None => Ok(found),
    }
}

} // verus!

verus! {

impl ResMods {
    /// A copy of these choices.
    pub fn dup(&self) -> (r: Self)
        ensures
            r.wf() == self.wf(),
            r.found_map() == self.found_map(),
    {
        let mut found: Vec<(RuleKey, Modifier, Option<TokCtx>)> = Vec::new();
        let mut i: usize = 0;
        while i < self.found.len()
            invariant
                i <= self.found@.len(),
                found@.map_values(|e: (RuleKey, Modifier, Option<TokCtx>)| (e.0@, e.1))
                    =~= self.found@.subrange(0, i as int).map_values(|e: (RuleKey, Modifier, Option<TokCtx>)| (e.0@, e.1)),
            decreases self.found@.len() - i,
        {
            let e = &self.found[i];
            let c = match &e.2 {
                Some(t) => Some(t.dup()),
                None => None,
            };
            let ghost before = found@;
            found.push((e.0, e.1, c));
            proof {
                let f = |e: (RuleKey, Modifier, Option<TokCtx>)| (e.0@, e.1);
                assert(found@ =~= before.push((e.0, e.1, c)));
                assert(found@.map_values(f) =~= before.map_values(f).push((e.0@, e.1)));
                assert(self.found@.subrange(0, i + 1) =~= self.found@.subrange(0, i as int).push(self.found@[i as int]));
                assert(self.found@.subrange(0, i + 1).map_values(f) =~= self.found@.subrange(0, i as int).map_values(f).push(
                    (self.found@[i as int].0@, self.found@[i as int].1),
                ));
            }
            i += 1;
        }
        let r = ResMods { found };
        assert(self.found@.subrange(0, self.found@.len() as int) =~= self.found@);
        assert(r.entries() =~= self.entries());
        r
    }
}

} // verus!
