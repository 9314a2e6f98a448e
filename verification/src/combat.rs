//! How single hits are classified for the hit lists: direction filters,
//! reaction ("环合") follow-up damage, type labels, reaction text images and
//! the digit image series a damage number is drawn with.
use vstd::prelude::*;

use std::collections::HashMap;
use std::collections::VecDeque;

use crate::ranking::opt_view;
use crate::text::{
    chars_of, opt_str, owned, push_decimal, push_str, starts_with, starts_with_exec, str_eq,
};

verus! {

/// What the classification of a hit reads.
#[derive(Clone, Debug)]
pub struct Hit {
    pub char_id: u32,
    pub char_name: String,
    /// The character was identified, not inferred.
    pub char_known: bool,
    /// `"outgoing"`, `"incoming"` or `"unknown"`.
    pub direction: String,
    pub damage_name: Option<String>,
    pub attack_type: Option<String>,
    pub damage_attribute: Option<String>,
    pub follow_up_attack_type: Option<String>,
    pub follow_up_damage_attribute: Option<String>,
}

/// A character of the character table.
#[derive(Clone, Debug)]
pub struct CharacterInfo {
    pub name_zh: String,
    pub name_en: String,
    pub color: Option<String>,
    pub avatar: Option<String>,
    pub attribute: Option<String>,
}


pub open spec fn is_incoming(hit: Hit) -> bool {
    hit.direction@ == "incoming"@
}

#[derive(Clone, Debug, PartialEq, Eq)]
pub enum HitDetailFilter {
    All,
    Outgoing,
    Incoming,
    QteType(String),
}

/// Which hits a filter keeps: all; those not incoming; the incoming ones; or
/// the ones not incoming whose attack type, or whose merged follow-up attack
/// type, is the given one.
pub open spec fn filter_keeps(filter: HitDetailFilter, hit: Hit) -> bool {
    match filter {
        HitDetailFilter::All => true,
        HitDetailFilter::Outgoing => !is_incoming(hit),
        HitDetailFilter::Incoming => is_incoming(hit),
        HitDetailFilter::QteType(t) => !is_incoming(hit) && (opt_view(hit.attack_type) == Some(t@)
            || opt_view(hit.follow_up_attack_type) == Some(t@)),
    }
}

fn text_eq(v: &Option<String>, t: &str) -> (r: bool)
    ensures
        r == (opt_view(*v) == Some(t@)),
{
    match v {
        Some(s) => str_eq(s.as_str(), t),
        None => false,
    }
}

impl HitDetailFilter {
    pub fn matches(&self, hit: &Hit) -> (r: bool)
        ensures
            r == filter_keeps(*self, *hit),
    {
        match self {
            HitDetailFilter::All => true,
            HitDetailFilter::Outgoing => !str_eq(hit.direction.as_str(), "incoming"),
            HitDetailFilter::Incoming => str_eq(hit.direction.as_str(), "incoming"),
            HitDetailFilter::QteType(attack_type) => {
                !str_eq(hit.direction.as_str(), "incoming") && (text_eq(
                    &hit.attack_type,
                    attack_type.as_str(),
                ) || text_eq(&hit.follow_up_attack_type, attack_type.as_str()))
            },
        }
    }
}

/// The reaction damage types that arrive as follow-up damage.
pub open spec fn qte_follow_up_type(t: Seq<char>) -> bool {
    t == "创生花"@ || t == "覆纹"@ || t == "延滞"@ || t == "黯星"@ || t == "浊燃"@ || t == "浸染"@
        || t == "盈蓄"@ || t == "失谐"@
}

pub fn is_qte_follow_up_damage_type(attack_type: &str) -> (r: bool)
    ensures
        r == qte_follow_up_type(attack_type@),
{
    str_eq(attack_type, "创生花") || str_eq(attack_type, "覆纹") || str_eq(attack_type, "延滞")
        || str_eq(attack_type, "黯星") || str_eq(attack_type, "浊燃") || str_eq(
        attack_type,
        "浸染",
    ) || str_eq(attack_type, "盈蓄") || str_eq(attack_type, "失谐")
}

/// A hit is reaction follow-up damage when its merged follow-up type is one,
/// or when its character is not identified and its own type is one.
pub open spec fn qte_follow_up_hit(hit: Hit) -> bool {
    opt_follow_up_type(hit.follow_up_attack_type) || (!hit.char_known && opt_follow_up_type(
        hit.attack_type,
    ))
}

/// A present type that is reaction follow-up damage.
pub open spec fn opt_follow_up_type(v: Option<String>) -> bool {
    v matches Some(t) && qte_follow_up_type(t@)
}

fn opt_is_follow_up_type(v: &Option<String>) -> (r: bool)
    ensures
        r == opt_follow_up_type(*v),
{
    match v {
        Some(t) => is_qte_follow_up_damage_type(t.as_str()),
        None => false,
    }
}

pub fn is_qte_follow_up_damage_hit(hit: &Hit) -> (r: bool)
    ensures
        r == qte_follow_up_hit(*hit),
{
    opt_is_follow_up_type(&hit.follow_up_attack_type) || (!hit.char_known && opt_is_follow_up_type(
        &hit.attack_type,
    ))
}

/// A character row is a party member when one of its hits is not reaction
/// follow-up damage; rows made only of follow-up damage are pseudo characters.
pub open spec fn party_member(char_id: u32, hits: Seq<Hit>) -> bool {
    exists|i: int| 0 <= i < hits.len() && #[trigger] hits[i].char_id == char_id && !qte_follow_up_hit(
        hits[i],
    )
}

pub fn is_party_member_row(char_id: u32, hits: &VecDeque<Hit>) -> (r: bool)
    ensures
        r == party_member(char_id, hits@),
{
    let mut i: usize = 0;
    while i < hits.len()
        invariant
            i <= hits@.len(),
            forall|j: int|
                0 <= j < i ==> !(#[trigger] hits@[j].char_id == char_id && !qte_follow_up_hit(
                    hits@[j],
                )),
        decreases hits.len() - i,
    {
        let hit = &hits[i];
        if hit.char_id == char_id && !is_qte_follow_up_damage_hit(hit) {
            return true;
        }
        i += 1;
    }
    false
}

/// The specific type of a hit: its damage name, else its attack type, else "未知招式".
pub open spec fn specific_type(hit: Hit) -> Seq<char> {
    match hit.damage_name {
        Some(n) => n@,
        None => match hit.attack_type {
            Some(t) => t@,
            None => "未知招式"@,
        },
    }
}

pub fn hit_specific_type(hit: &Hit) -> (r: &str)
    ensures
        r@ == specific_type(*hit),
{
    match &hit.damage_name {
        Some(n) => n.as_str(),
        None => match &hit.attack_type {
            Some(t) => t.as_str(),
            None => "未知招式",
        },
    }
}

/// The label of a hit: "受击" for incoming, "候选输出" for unknown direction,
/// its specific type otherwise.
pub open spec fn type_label(hit: Hit) -> Seq<char> {
    if hit.direction@ == "incoming"@ {
        "受击"@
    } else if hit.direction@ == "unknown"@ {
        "候选输出"@
    } else {
        specific_type(hit)
    }
}

pub fn hit_type_label(hit: &Hit) -> (r: &str)
    ensures
        r@ == type_label(*hit),
{
    if str_eq(hit.direction.as_str(), "incoming") {
        "受击"
    } else if str_eq(hit.direction.as_str(), "unknown") {
        "候选输出"
    } else {
        hit_specific_type(hit)
    }
}

/// The reaction text image of a reaction trigger type `环合·<reaction>`.
pub open spec fn reaction_text_key(attack_type: Seq<char>) -> Option<u8> {
    if !starts_with(attack_type, "环合·"@) {
        None
    } else {
        let r = attack_type.skip("环合·"@.len() as int);
        if r == "创生"@ || r == "创生花"@ {
            Some(1)
        } else if r == "覆纹"@ {
            Some(2)
        } else if r == "黯星"@ {
            Some(3)
        } else if r == "浊燃"@ || r == "灼燃"@ {
            Some(4)
        } else if r == "浸染"@ {
            Some(5)
        } else if r == "延滞"@ {
            Some(6)
        } else if r == "盈蓄"@ {
            Some(7)
        } else if r == "失谐"@ {
            Some(8)
        } else {
            None
        }
    }
}

pub fn reaction_text_key_from_trigger_attack_type(attack_type: &str) -> (r: Option<u8>)
    ensures
        r == reaction_text_key(attack_type@),
{
    let v = chars_of(attack_type);
    let prefix = chars_of("环合·");
    if !starts_with_exec(&v, &prefix) {
        return None;
    }
    let rest = crate::text::string_of_range(&v, prefix.len(), v.len());
    assert(rest@ =~= attack_type@.skip("环合·"@.len() as int));
    let r = rest.as_str();
    if str_eq(r, "创生") || str_eq(r, "创生花") {
        Some(1)
    } else if str_eq(r, "覆纹") {
        Some(2)
    } else if str_eq(r, "黯星") {
        Some(3)
    } else if str_eq(r, "浊燃") || str_eq(r, "灼燃") {
        Some(4)
    } else if str_eq(r, "浸染") {
        Some(5)
    } else if str_eq(r, "延滞") {
        Some(6)
    } else if str_eq(r, "盈蓄") {
        Some(7)
    } else if str_eq(r, "失谐") {
        Some(8)
    } else {
        None
    }
}

/// A reaction trigger type `环合·<r>` shows reaction text image 1 exactly
/// for 创生 and 创生花, 2 for 覆纹, 3 for 黯星, 4 for 浊燃 and 灼燃, 5 for 浸染,
/// 6 for 延滞, 7 for 盈蓄 and 8 for 失谐, and no image for any other `r`; a
/// type without the `环合·` prefix shows none.
pub proof fn law_reaction_text_images(r: Seq<char>, attack_type: Seq<char>)
    ensures
        reaction_text_key("环合·"@ + r) == Some(1u8) <==> (r == "创生"@ || r == "创生花"@),
        reaction_text_key("环合·"@ + r) == Some(2u8) <==> r == "覆纹"@,
        reaction_text_key("环合·"@ + r) == Some(3u8) <==> r == "黯星"@,
        reaction_text_key("环合·"@ + r) == Some(4u8) <==> (r == "浊燃"@ || r == "灼燃"@),
        reaction_text_key("环合·"@ + r) == Some(5u8) <==> r == "浸染"@,
        reaction_text_key("环合·"@ + r) == Some(6u8) <==> r == "延滞"@,
        reaction_text_key("环合·"@ + r) == Some(7u8) <==> r == "盈蓄"@,
        reaction_text_key("环合·"@ + r) == Some(8u8) <==> r == "失谐"@,
        reaction_text_key("环合·"@ + r) is None <==> !(r == "创生"@ || r == "创生花"@ || r == "覆纹"@
            || r == "黯星"@ || r == "浊燃"@ || r == "灼燃"@ || r == "浸染"@ || r == "延滞"@
            || r == "盈蓄"@ || r == "失谐"@),
        !starts_with(attack_type, "环合·"@) ==> reaction_text_key(attack_type) is None,
{
    reveal_strlit("环合·");
    reveal_strlit("创生");
    reveal_strlit("创生花");
    reveal_strlit("覆纹");
    reveal_strlit("黯星");
    reveal_strlit("浊燃");
    reveal_strlit("灼燃");
    reveal_strlit("浸染");
    reveal_strlit("延滞");
    reveal_strlit("盈蓄");
    reveal_strlit("失谐");
    assert("创生"@[0] == '创' && "创生花"@[0] == '创' && "创生"@.len() == 2 && "创生花"@.len() == 3);
    assert("覆纹"@[0] == '覆' && "黯星"@[0] == '黯' && "浊燃"@[0] == '浊' && "灼燃"@[0] == '灼');
    assert("浸染"@[0] == '浸' && "延滞"@[0] == '延' && "盈蓄"@[0] == '盈' && "失谐"@[0] == '失');
    let t = "环合·"@ + r;
    assert(t.take("环合·"@.len() as int) =~= "环合·"@);
    assert(t.skip("环合·"@.len() as int) =~= r);
}

/// The reaction text image of a hit, from its attack type.
pub open spec fn hit_reaction_text_key(hit: Hit) -> Option<u8> {
    match hit.attack_type {
        Some(t) => reaction_text_key(t@),
        None => None,
    }
}

pub fn reaction_text_key_for_hit(hit: &Hit) -> (r: Option<u8>)
    ensures
        r == hit_reaction_text_key(*hit),
{
    match &hit.attack_type {
        Some(t) => reaction_text_key_from_trigger_attack_type(t.as_str()),
        None => None,
    }
}

/// The digit series of reaction damage: fixed to the trigger side's series for
/// 创生, 覆纹, 黯星 and 浊燃; chosen by the source attribute for 延滞, 浸染
/// (魂相), 盈蓄 and 失谐; none for the trigger hit itself (`环合·…`), which
/// uses its character's own series.
pub open spec fn mixed_digit_key(attack_type: Seq<char>, source: Option<Seq<char>>) -> Option<
    &'static str,
> {
    if starts_with(attack_type, "环合·"@) {
        None
    } else if attack_type == "创生"@ || attack_type == "创生花"@ {
        Some("Guangling_G")
    } else if attack_type == "覆纹"@ {
        Some("lingzhou_L")
    } else if attack_type == "黯星"@ {
        Some("Anhun_A")
    } else if attack_type == "浊燃"@ {
        Some("Zhouan_A")
    } else if attack_type == "延滞"@ {
        if source == Some("光"@) {
            Some("Guangxiang_G")
        } else if source == Some("相"@) {
            Some("Guangxiang_X")
        } else {
            None
        }
    } else if attack_type == "浸染"@ || attack_type == "魂相"@ {
        if source == Some("魂"@) {
            Some("Hunxiang_H")
        } else if source == Some("相"@) {
            Some("Hunxiang_X")
        } else {
            None
        }
    } else if attack_type == "盈蓄"@ {
        if source == Some("光"@) {
            Some("Guangling_G")
        } else if source == Some("相"@) {
            Some("Guangxiang_X")
        } else {
            None
        }
    } else if attack_type == "失谐"@ {
        if source == Some("暗"@) {
            Some("Anhun_A")
        } else {
            None
        }
    } else {
        None
    }
}

fn source_is(source: Option<&str>, t: &str) -> (r: bool)
    ensures
        r == (opt_str(source) == Some(t@)),
{
    match source {
        Some(s) => str_eq(s, t),
        None => false,
    }
}

pub fn mixed_damage_digit_key(attack_type: &str, source_attribute: Option<&str>) -> (r: Option<
    &'static str,
>)
    ensures
        r == mixed_digit_key(attack_type@, opt_str(source_attribute)),
{
    if crate::text::str_starts_with(attack_type, "环合·") {
        return None;
    }
    let a = attack_type;
    if str_eq(a, "创生") || str_eq(a, "创生花") {
        Some("Guangling_G")
    } else if str_eq(a, "覆纹") {
        Some("lingzhou_L")
    } else if str_eq(a, "黯星") {
        Some("Anhun_A")
    } else if str_eq(a, "浊燃") {
        Some("Zhouan_A")
    } else if str_eq(a, "延滞") {
        if source_is(source_attribute, "光") {
            Some("Guangxiang_G")
        } else if source_is(source_attribute, "相") {
            Some("Guangxiang_X")
        } else {
            None
        }
    } else if str_eq(a, "浸染") || str_eq(a, "魂相") {
        if source_is(source_attribute, "魂") {
            Some("Hunxiang_H")
        } else if source_is(source_attribute, "相") {
            Some("Hunxiang_X")
        } else {
            None
        }
    } else if str_eq(a, "盈蓄") {
        if source_is(source_attribute, "光") {
            Some("Guangling_G")
        } else if source_is(source_attribute, "相") {
            Some("Guangxiang_X")
        } else {
            None
        }
    } else if str_eq(a, "失谐") {
        if source_is(source_attribute, "暗") {
            Some("Anhun_A")
        } else {
            None
        }
    } else {
        None
    }
}

pub open spec fn static_text(v: Option<&'static str>) -> Option<Seq<char>> {
    match v {
        Some(s) => Some(s@),
        None => None,
    }
}

/// The attribute a hit's digits come from: the hit's own damage attribute,
/// else its character's attribute in the table.
pub open spec fn source_attribute(hit: Hit, characters: Map<u32, CharacterInfo>) -> Option<
    Seq<char>,
> {
    match hit.damage_attribute {
        Some(a) => Some(a@),
        None => if characters.contains_key(hit.char_id) {
            opt_view(characters[hit.char_id].attribute)
        } else {
            None
        },
    }
}

/// A damage name that mentions 倾陷.
pub open spec fn names_collapse(v: Option<String>) -> bool {
    v matches Some(n) && crate::text::contains(n@, "倾陷"@)
}

/// The digit series of a hit: "物理" for incoming hits; "真实" for 倾陷 damage;
/// the reaction series when its attack type has one; else the source attribute.
pub open spec fn digit_key(hit: Hit, characters: Map<u32, CharacterInfo>) -> Option<Seq<char>> {
    if is_incoming(hit) {
        Some("物理"@)
    } else if opt_view(hit.attack_type) == Some("倾陷伤害"@) || names_collapse(hit.damage_name) {
        Some("真实"@)
    } else {
        let source = source_attribute(hit, characters);
        let mixed = match hit.attack_type {
            Some(t) => static_text(mixed_digit_key(t@, source)),
            None => None,
        };
        match mixed {
            Some(m) => Some(m),
            None => source,
        }
    }
}

pub fn damage_digit_key_for_hit<'a>(
    hit: &'a Hit,
    characters: &'a HashMap<u32, CharacterInfo>,
) -> (r: Option<&'a str>)
    ensures
        opt_str(r) == digit_key(*hit, characters@),
{
    if str_eq(hit.direction.as_str(), "incoming") {
        return Some("物理");
    }
    let source: Option<&str> = match &hit.damage_attribute {
        Some(a) => Some(a.as_str()),
        None => match characters.get(&hit.char_id) {
            Some(character) => match &character.attribute {
                Some(a) => Some(a.as_str()),
                None => None,
            },
            None => None,
        },
    };
    assert(opt_str(source) == source_attribute(*hit, characters@));
    let collapse = text_eq(&hit.attack_type, "倾陷伤害") || match &hit.damage_name {
        Some(n) => crate::text::str_contains(n.as_str(), "倾陷"),
        None => false,
    };
    if collapse {
        return Some("真实");
    }
    let mixed = match &hit.attack_type {
        Some(t) => mixed_damage_digit_key(t.as_str(), source),
        None => None,
    };
    match mixed {
        Some(m) => Some(m),
        None => source,
    }
}

/// The digit series of a hit's merged follow-up damage: the reaction series of
/// the follow-up type when it has one, else the follow-up attribute; none
/// without a follow-up attribute.
pub open spec fn follow_up_digit_key(hit: Hit) -> Option<Seq<char>> {
    match hit.follow_up_damage_attribute {
        None => None,
        Some(a) => {
            let mixed = match hit.follow_up_attack_type {
                Some(t) => static_text(mixed_digit_key(t@, Some(a@))),
                None => None,
            };
            match mixed {
                Some(m) => Some(m),
                None => Some(a@),
            }
        },
    }
}

pub fn follow_up_damage_digit_key_for_hit(hit: &Hit) -> (r: Option<&str>)
    ensures
        opt_str(r) == follow_up_digit_key(*hit),
{
    let source: &str = match &hit.follow_up_damage_attribute {
        Some(a) => a.as_str(),
        None => return None,
    };
    let mixed = match &hit.follow_up_attack_type {
        Some(t) => mixed_damage_digit_key(t.as_str(), Some(source)),
        None => None,
    };
    match mixed {
        Some(m) => Some(m),
        None => Some(source),
    }
}

/// Where a cached row now sits after `popped` rows left the front of the
/// list, `popped` being what the list lost beyond what was appended; `None`
/// when the row itself left.
pub open spec fn cached_index(index: usize, source_len: usize, current_len: usize, appended: usize) -> Option<
    usize,
> {
    let grown = if source_len + appended > usize::MAX {
        usize::MAX as int
    } else {
        source_len + appended
    };
    let popped = if grown > current_len {
        grown - current_len
    } else {
        0
    };
    if index >= popped {
        Some((index - popped) as usize)
    } else {
        None
    }
}

pub fn adjusted_cached_index(index: usize, source_len: usize, current_len: usize, appended: usize) -> (r:
    Option<usize>)
    ensures
        r == cached_index(index, source_len, current_len, appended),
{
    let popped = source_len.saturating_add(appended).saturating_sub(current_len);
    index.checked_sub(popped)
}

/// The image path of one damage digit.
pub open spec fn digit_path(prefix: Seq<char>, digit: usize) -> Seq<char> {
    "res/images/font/tiaozi1"@ + "/"@ + prefix + "_"@ + crate::text::decimal(digit as nat)
        + ".png"@
}

pub fn damage_digit_resource_path(prefix: &str, digit: usize) -> (r: String)
    ensures
        r@ == digit_path(prefix@, digit),
{
    let mut out = owned("res/images/font/tiaozi1");
    push_str(&mut out, "/");
    push_str(&mut out, prefix);
    push_str(&mut out, "_");
    push_decimal(&mut out, digit as u64);
    push_str(&mut out, ".png");
    out
}

/// Whether a filter can be offered: a follow-up attack type only when the
/// hits have a summary of it; any other filter always.
pub open spec fn filter_available(filter: HitDetailFilter, attack_types: Seq<Seq<char>>) -> bool {
    match filter {
        HitDetailFilter::QteType(t) => attack_types.contains(t@),
        _ => true,
    }
}

pub fn hit_detail_filter_available(filter: &HitDetailFilter, attack_types: &Vec<String>) -> (r: bool)
    ensures
        r == filter_available(*filter, crate::text::texts(attack_types@)),
{
    match filter {
        HitDetailFilter::QteType(attack_type) => {
            let mut i: usize = 0;
            while i < attack_types.len()
                invariant
                    i <= attack_types@.len(),
                    *filter == HitDetailFilter::QteType(*attack_type),
                    forall|j: int| 0 <= j < i ==> #[trigger] attack_types@[j]@ != attack_type@,
                decreases attack_types.len() - i,
            {
                if attack_types[i] == *attack_type {
                    assert(crate::text::texts(attack_types@)[i as int] == attack_type@);
                    return true;
                }
                i += 1;
            }
            proof {
                if crate::text::texts(attack_types@).contains(attack_type@) {
                    let k = choose|k: int| 0 <= k < attack_types@.len() && crate::text::texts(attack_types@)[k] == attack_type@;
                    assert(attack_types@[k]@ != attack_type@);
                }
            }
            false
        },
        _ => true,
    }
}

} // verus!
