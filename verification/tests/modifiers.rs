use vksl::parser::err::ParseErrType;
use vksl::parser::mods::{check_mods, ModRule, Modifier, Mods, ModsUsage, ResMods};
use vksl::token::history::History;
use vksl::token::{Keyword, TokCtx};

fn ctx(pos: u32) -> TokCtx {
    TokCtx { line: 1, start_pos: pos, end_pos: pos, file: None, history: History::new(60) }
}

fn mods_of(list: &[Modifier]) -> Mods {
    let mut m = Mods::new();
    for (i, x) in list.iter().enumerate() {
        m.insert(*x, ctx(i as u32 + 1));
    }
    m
}

fn interpolation() -> ModsUsage {
    ModsUsage::default().with_rule(
        "interpolation",
        ModRule::EitherOr(vec![Modifier::Flat, Modifier::Smooth, Modifier::Noperspective]),
    )
}

#[test]
fn empty_choices() {
    let r = ResMods::empty();
    assert_eq!(r.test("anything"), None);
    assert_eq!(r.test_or("anything", Modifier::Warn), Modifier::Warn);
}

#[test]
fn or_default_fills_only_missing_keys() {
    let mut r = check_mods(mods_of(&[Modifier::Smooth]), interpolation()).ok().unwrap();
    r.or_default("interpolation", Modifier::Flat);
    assert_eq!(r.test("interpolation"), Some(Modifier::Smooth));
    r.or_default("access", Modifier::Readonly);
    assert_eq!(r.test("access"), Some(Modifier::Readonly));
    assert_eq!(r.test_or("access", Modifier::Writeonly), Modifier::Readonly);
    assert_eq!(r.test_or("packing", Modifier::STD140), Modifier::STD140);
}

#[test]
fn optional_rule_with_nothing_present() {
    let r = check_mods(Mods::new(), interpolation()).ok().unwrap();
    assert_eq!(r.test("interpolation"), None);
}

#[test]
fn required_rule_missing() {
    let usage = ModsUsage::default().with_rule("extension", ModRule::Either(vec![Modifier::Enable, Modifier::Disable]));
    let f = check_mods(Mods::new(), usage).err().unwrap();
    assert!(matches!(f.ty, ParseErrType::MissingModifier));
    assert!(f.ctx.is_none());
    assert_eq!(f.hint, "one of `enable`, `disable` is required. Consider adding `enable`");
}

#[test]
fn required_rule_with_no_options() {
    let usage = ModsUsage::default().with_rule("odd", ModRule::Either(vec![]));
    let f = check_mods(Mods::new(), usage).err().unwrap();
    assert!(matches!(f.ty, ParseErrType::MissingModifier));
    assert_eq!(f.hint, "one of  is required. Consider adding `enable`");
}

#[test]
fn once_or_records_without_consuming() {
    let usage = ModsUsage::default().with_rule("ro", ModRule::OnceOr(Modifier::Readonly));
    let f = check_mods(mods_of(&[Modifier::Readonly]), usage).err().unwrap();
    assert!(matches!(f.ty, ParseErrType::IllegalModifier(Modifier::Readonly)));
    assert_eq!(f.hint, "`readonly` is not a valid modifier in this context");
}

#[test]
fn rules_apply_in_order() {
    let usage = ModsUsage::default()
        .with_rule("packing_type", ModRule::EitherOr(vec![Modifier::STD140, Modifier::STD430]))
        .with_rule("access", ModRule::EitherOr(vec![Modifier::Readonly, Modifier::Writeonly]));
    let r = check_mods(mods_of(&[Modifier::Writeonly, Modifier::STD140]), usage).ok().unwrap();
    assert_eq!(r.test("packing_type"), Some(Modifier::STD140));
    assert_eq!(r.test("access"), Some(Modifier::Writeonly));
}

#[test]
fn first_leftover_modifier_is_named() {
    let f = check_mods(mods_of(&[Modifier::Warn, Modifier::Flat, Modifier::Enable]), interpolation())
        .err()
        .unwrap();
    assert!(matches!(f.ty, ParseErrType::IllegalModifier(Modifier::Warn)));
    assert_eq!(f.ctx.unwrap().start_pos, 1);
}

#[test]
fn modifier_written_twice_counts_once() {
    let mut m = Mods::new();
    m.insert(Modifier::Flat, ctx(1));
    m.insert(Modifier::Flat, ctx(5));
    let r = check_mods(m, interpolation()).ok().unwrap();
    assert_eq!(r.test("interpolation"), Some(Modifier::Flat));
}

#[test]
fn modifier_keywords() {
    assert_eq!(Modifier::from_keyword(Keyword::STD430), Some(Modifier::STD430));
    assert_eq!(Modifier::from_keyword(Keyword::Flat), Some(Modifier::Flat));
    assert_eq!(Modifier::from_keyword(Keyword::Fn), None);
    let mut v = Vec::new();
    Modifier::Noperspective.push_text(&mut v);
    assert_eq!(v.iter().collect::<String>(), "noperspective");
}

#[test]
fn every_written_modifier_is_chosen() {
    let usage = ModsUsage::default()
        .with_rule("packing_type", ModRule::EitherOr(vec![Modifier::STD140, Modifier::STD430]))
        .with_rule("access", ModRule::EitherOr(vec![Modifier::Readonly, Modifier::Writeonly]));
    let written = [Modifier::Readonly, Modifier::STD430];
    let r = check_mods(mods_of(&written), usage).ok().unwrap();
    let chosen = [r.test("packing_type"), r.test("access")];
    for m in written {
        assert!(chosen.contains(&Some(m)));
    }
}

#[test]
fn modifier_text_is_its_keyword_spelling() {
    let pairs = [
        (Keyword::Flat, "flat"),
        (Keyword::Smooth, "smooth"),
        (Keyword::Noperspective, "noperspective"),
        (Keyword::Enable, "enable"),
        (Keyword::Require, "require"),
        (Keyword::Warn, "warn"),
        (Keyword::Disable, "disable"),
        (Keyword::Readonly, "readonly"),
        (Keyword::Writeonly, "writeonly"),
        (Keyword::STD140, "std140"),
        (Keyword::STD430, "std430"),
    ];
    for (k, spelling) in pairs {
        let m = Modifier::from_keyword(k).unwrap();
        let mut v = Vec::new();
        m.push_text(&mut v);
        assert_eq!(v.iter().collect::<String>(), spelling);
        assert_eq!(k.text_chars().iter().collect::<String>(), spelling);
    }
}
