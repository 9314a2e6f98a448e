//! Display texts: skill names, error messages and actions, abyss season and
//! floor labels, character editor cards, and JSON string literals.
use vstd::prelude::*;

use crate::abyss_data::{AbyssFloor, AbyssMonsterEntry};
use crate::ranking::opt_view;
use crate::text::{
    chars_of, contains, contains_exec, decimal, decimal_chars, ends_with, is_blank, lower_ascii_chars,
    lower_ascii_seq, opt_str, owned, push_char, push_chars, push_decimal, push_str, starts_with,
    starts_with_exec, str_eq, str_is_blank, string_of, trim, trim_bounds, trim_start, trimmed,
    is_whitespace_exec,
};

verus! {

/// The names a skill row is labelled by.
#[derive(Clone, Debug)]
pub struct SkillNames {
    pub name: String,
    pub category: String,
    pub char_name: String,
}

/// A character of a CJK ideograph block (extension A, unified, compatibility).
pub open spec fn is_cjk(c: char) -> bool {
    let v = c as u32;
    (0x3400 <= v && v <= 0x4DBF) || (0x4E00 <= v && v <= 0x9FFF) || (0xF900 <= v && v <= 0xFAFF)
}

pub open spec fn has_cjk(s: Seq<char>) -> bool {
    exists|i: int| 0 <= i < s.len() && is_cjk(#[trigger] s[i])
}

pub fn contains_cjk(text: &str) -> (r: bool)
    ensures
        r == has_cjk(text@),
{
    let v = chars_of(text);
    let mut i: usize = 0;
    while i < v.len()
        invariant
            i <= v.len(),
            v@ == text@,
            forall|j: int| 0 <= j < i ==> !is_cjk(#[trigger] v@[j]),
        decreases v.len() - i,
    {
        let c = v[i] as u32;
        if (0x3400 <= c && c <= 0x4DBF) || (0x4E00 <= c && c <= 0x9FFF) || (0xF900 <= c && c
            <= 0xFAFF) {
            assert(is_cjk(v@[i as int]));
            return true;
        }
        i += 1;
    }
    false
}

/// The generic name of a skill whose own name is not Chinese: by keywords of
/// its lower-cased name, else its category when that is Chinese and not
/// "未归类", else "技能".
pub open spec fn fallback_name(row: SkillNames) -> Seq<char> {
    let n = lower_ascii_seq(row.name@);
    if contains(n, "ultraskill"@) || contains(n, "ultimate"@) {
        "大招"@
    } else if contains(n, "melee"@) || contains(n, "normal"@) {
        "普攻"@
    } else if contains(n, "qte"@) {
        "环合"@
    } else if contains(n, "skill"@) {
        "技能"@
    } else if has_cjk(row.category@) && row.category@ != "未归类"@ {
        row.category@
    } else {
        "技能"@
    }
}

pub fn fallback_skill_display_name(row: &SkillNames) -> (r: String)
    ensures
        r@ == fallback_name(*row),
{
    let raw = chars_of(row.name.as_str());
    let n = lower_ascii_chars(&raw);
    if contains_exec(&n, &chars_of("ultraskill")) || contains_exec(&n, &chars_of("ultimate")) {
        owned("大招")
    } else if contains_exec(&n, &chars_of("melee")) || contains_exec(&n, &chars_of("normal")) {
        owned("普攻")
    } else if contains_exec(&n, &chars_of("qte")) {
        owned("环合")
    } else if contains_exec(&n, &chars_of("skill")) {
        owned("技能")
    } else if contains_cjk(row.category.as_str()) && !str_eq(row.category.as_str(), "未归类") {
        row.category.clone()
    } else {
        owned("技能")
    }
}

/// A skill's display name: its own name when it is Chinese; otherwise its
/// generic name, after the character's name and " · " when that is not blank.
pub open spec fn skill_label(row: SkillNames) -> Seq<char> {
    if has_cjk(row.name@) {
        row.name@
    } else if !is_blank(row.char_name@) {
        trim(row.char_name@) + " · "@ + fallback_name(row)
    } else {
        fallback_name(row)
    }
}

pub fn skill_display_name(row: &SkillNames) -> (r: String)
    ensures
        r@ == skill_label(*row),
{
    if contains_cjk(row.name.as_str()) {
        return row.name.clone();
    }
    let skill_name = fallback_skill_display_name(row);
    if !str_is_blank(row.char_name.as_str()) {
        let mut out = trimmed(row.char_name.as_str());
        push_str(&mut out, " · ");
        push_str(&mut out, skill_name.as_str());
        out
    } else {
        skill_name
    }
}

#[derive(Clone, Copy, Debug, PartialEq, Eq, Structural)]
pub enum ErrorAction {
    RefreshNetwork,
    OpenPcapng,
    OpenCaptureJson,
    OpenEncryptedIni,
    OpenTeamDpsImport,
    OpenConsole,
}

pub open spec fn action_label(action: ErrorAction) -> &'static str {
    match action {
        ErrorAction::RefreshNetwork => "重新检测",
        ErrorAction::OpenPcapng => "重新选择 PCAPNG",
        ErrorAction::OpenCaptureJson => "重新选择 JSON",
        ErrorAction::OpenEncryptedIni => "重新选择 INI",
        ErrorAction::OpenTeamDpsImport => "重新选择 DPS 数据",
        ErrorAction::OpenConsole => "打开控制台",
    }
}

pub fn error_action_label(action: ErrorAction) -> (r: &'static str)
    ensures
        r == action_label(action),
{
    match action {
        ErrorAction::RefreshNetwork => "重新检测",
        ErrorAction::OpenPcapng => "重新选择 PCAPNG",
        ErrorAction::OpenCaptureJson => "重新选择 JSON",
        ErrorAction::OpenEncryptedIni => "重新选择 INI",
        ErrorAction::OpenTeamDpsImport => "重新选择 DPS 数据",
        ErrorAction::OpenConsole => "打开控制台",
    }
}

/// The retry offered for an import error: pick the PCAPNG again when the
/// message mentions pcapng, the JSON again when it mentions json.
pub open spec fn import_action(error: Seq<char>) -> Option<ErrorAction> {
    let lower = lower_ascii_seq(error);
    if contains(lower, "pcapng"@) {
        Some(ErrorAction::OpenPcapng)
    } else if contains(lower, "json"@) {
        Some(ErrorAction::OpenCaptureJson)
    } else {
        None
    }
}

pub fn import_error_action(error: &str) -> (r: Option<ErrorAction>)
    ensures
        r == import_action(error@),
{
    let raw = chars_of(error);
    let lower = lower_ascii_chars(&raw);
    if contains_exec(&lower, &chars_of("pcapng")) {
        Some(ErrorAction::OpenPcapng)
    } else if contains_exec(&lower, &chars_of("json")) {
        Some(ErrorAction::OpenCaptureJson)
    } else {
        None
    }
}

/// The engine's import errors in Chinese: a message starting (in any case)
/// with "pcapng import failed:" or "json import failed:" becomes the Chinese
/// lead and the trimmed reason; any other message is kept.
pub open spec fn humanized(error: Seq<char>) -> Seq<char> {
    let lower = lower_ascii_seq(error);
    if starts_with(lower, "pcapng import failed:"@) {
        "PCAPNG 导入失败："@ + trim(error.skip("pcapng import failed:"@.len() as int))
    } else if starts_with(lower, "json import failed:"@) {
        "抓包 JSON 导入失败："@ + trim(error.skip("json import failed:"@.len() as int))
    } else {
        error
    }
}

fn lead_and_reason(lead: &str, error: &Vec<char>, skip: usize) -> (r: String)
    requires
        skip <= error@.len(),
    ensures
        r@ == lead@ + trim(error@.skip(skip as int)),
{
    let rest = crate::text::chars_range(error, skip, error.len());
    let (lo, hi) = trim_bounds(&rest);
    let mut out = owned(lead);
    let reason = crate::text::chars_range(&rest, lo, hi);
    push_chars(&mut out, &reason);
    assert(rest@ =~= error@.skip(skip as int));
    out
}

pub fn humanize_engine_error(error: &str) -> (r: String)
    ensures
        r@ == humanized(error@),
{
    let raw = chars_of(error);
    let lower = lower_ascii_chars(&raw);
    let pcapng = chars_of("pcapng import failed:");
    let json = chars_of("json import failed:");
    if starts_with_exec(&lower, &pcapng) {
        return lead_and_reason("PCAPNG 导入失败：", &raw, pcapng.len());
    }
    if starts_with_exec(&lower, &json) {
        return lead_and_reason("抓包 JSON 导入失败：", &raw, json.len());
    }
    owned(error)
}

/// A label from a name that is present and not blank, else `lead`, the
/// number and `tail`.
pub open spec fn named_or_numbered(name: Option<Seq<char>>, lead: Seq<char>, n: u32, tail: Seq<char>) -> Seq<
    char,
> {
    match name {
        Some(s) => if !is_blank(s) {
            s
        } else {
            lead + decimal(n as nat) + tail
        },
        None => lead + decimal(n as nat) + tail,
    }
}


fn named_or_numbered_exec(name: Option<&str>, lead: &str, n: u32, tail: &str) -> (r: String)
    ensures
        r@ == named_or_numbered(opt_str(name), lead@, n, tail@),
{
    match name {
        Some(s) => {
            if !str_is_blank(s) {
                return owned(s);
            }
        },
        None => {},
    }
    let mut out = owned(lead);
    push_decimal(&mut out, n as u64);
    push_str(&mut out, tail);
    out
}

/// "第 n 期" unless the season has a name that is not blank.
pub fn abyss_season_label(season: u32, name: Option<&str>) -> (r: String)
    ensures
        r@ == named_or_numbered(opt_str(name), "第 "@, season, " 期"@),
{
    named_or_numbered_exec(name, "第 ", season, " 期")
}

/// "第 n 站" unless the floor has a name that is not blank.
pub fn abyss_floor_nav_label(floor: u32, name: Option<&str>) -> (r: String)
    ensures
        r@ == named_or_numbered(opt_str(name), "第 "@, floor, " 站"@),
{
    named_or_numbered_exec(name, "第 ", floor, " 站")
}

/// A floor's name when it has one that is not blank, else "第 n 站".
pub fn abyss_floor_label(floor: &AbyssFloor) -> (r: String)
    ensures
        r@ == named_or_numbered(opt_view(floor.name), "第 "@, floor.floor, " 站"@),
{
    match &floor.name {
        Some(name) => named_or_numbered_exec(Some(name.as_str()), "第 ", floor.floor, " 站"),
        None => named_or_numbered_exec(None, "第 ", floor.floor, " 站"),
    }
}

/// "W<wave>", or "-" for a monster of no particular wave.
pub open spec fn wave_label(wave: Option<u32>) -> Seq<char> {
    match wave {
        Some(w) => "W"@ + decimal(w as nat),
        None => "-"@,
    }
}

pub fn monster_wave_label(monster: &AbyssMonsterEntry) -> (r: String)
    ensures
        r@ == wave_label(monster.wave),
{
    match monster.wave {
        Some(wave) => {
            let mut out = owned("W");
            push_decimal(&mut out, wave as u64);
            out
        },
        None => owned("-"),
    }
}

/// The route of a half: the upper and lower lines by name, others by number.
pub open spec fn half_label(half: u32) -> Seq<char> {
    if half == 0 {
        "上行线"@
    } else if half == 1 {
        "下行线"@
    } else {
        "线路 "@ + decimal(half as nat)
    }
}

/// Where on the floor a monster appears: its line and wave, either, or the
/// whole floor.
pub open spec fn line_label(half: Option<u32>, wave: Option<u32>) -> Seq<char> {
    match (half, wave) {
        (Some(h), Some(w)) => half_label(h) + " · "@ + "第 "@ + decimal(w as nat) + " 波"@,
        (Some(h), None) => half_label(h),
        (None, Some(w)) => "第 "@ + decimal(w as nat) + " 波"@,
        (None, None) => "整层配置"@,
    }
}

fn push_half_label(out: &mut String, half: u32)
    ensures
        final(out)@ == old(out)@ + half_label(half),
{
    if half == 0 {
        push_str(out, "上行线");
    } else if half == 1 {
        push_str(out, "下行线");
    } else {
        push_str(out, "线路 ");
        push_decimal(out, half as u64);
    }
}

fn push_wave_label(out: &mut String, wave: u32)
    ensures
        final(out)@ == old(out)@ + "第 "@ + decimal(wave as nat) + " 波"@,
{
    push_str(out, "第 ");
    push_decimal(out, wave as u64);
    push_str(out, " 波");
}

pub fn monster_line_label(monster: &AbyssMonsterEntry) -> (r: String)
    ensures
        r@ == line_label(monster.half, monster.wave),
{
    let mut out = String::new();
    match (monster.half, monster.wave) {
        (Some(half), Some(wave)) => {
            push_half_label(&mut out, half);
            push_str(&mut out, " · ");
            push_wave_label(&mut out, wave);
            assert(out@ =~= line_label(monster.half, monster.wave));
        },
        (Some(half), None) => {
            push_half_label(&mut out, half);
            assert(out@ =~= line_label(monster.half, monster.wave));
        },
        (None, Some(wave)) => {
            push_wave_label(&mut out, wave);
            assert(out@ =~= line_label(monster.half, monster.wave));
        },
        (None, None) => {
            push_str(&mut out, "整层配置");
            assert(out@ =~= line_label(monster.half, monster.wave));
        },
    }
    out
}

/// What a confirmation dialog asks about. A file is given by the name its
/// path ends with (none when the path has no such name).
#[derive(Clone, Debug)]
pub enum ConfirmationAction {
    StartLive,
    ResetSession,
    ImportPcapng(Option<String>),
    ImportCaptureJson(Option<String>),
    ClearEncryptedIni,
    ReloadEncryptedIni(Option<String>),
    DeleteHistory(String),
}

/// A file's name, or "所选文件" for one without a name.
pub open spec fn display_name(name: Option<Seq<char>>) -> Seq<char> {
    match name {
        Some(n) => n,
        None => "所选文件"@,
    }
}

pub fn file_display_name(file_name: Option<&str>) -> (r: String)
    ensures
        r@ == display_name(opt_str(file_name)),
{
    match file_name {
        Some(name) => owned(name),
        None => owned("所选文件"),
    }
}

/// The title, message and confirm button of the dialog for `action`.
pub open spec fn confirmation_texts(action: ConfirmationAction) -> (Seq<char>, Seq<char>, Seq<char>) {
    match action {
        ConfirmationAction::StartLive => (
            "确认开始"@,
            "开始实时抓包会清空当前统计并重新检测游戏连接。"@,
            "开始"@,
        ),
        ConfirmationAction::ResetSession => (
            "确认重置"@,
            "将停止当前任务并清空本次统计、深渊状态和明细缓存。"@,
            "重置"@,
        ),
        ConfirmationAction::ImportPcapng(name) => (
            "确认导入"@,
            "导入 "@ + display_name(opt_view(name)) + " 会停止当前任务并清空现有统计。"@,
            "导入"@,
        ),
        ConfirmationAction::ImportCaptureJson(name) => (
            "确认导入"@,
            "导入 "@ + display_name(opt_view(name)) + " 会停止当前任务并清空现有统计。"@,
            "导入"@,
        ),
        ConfirmationAction::ClearEncryptedIni => (
            "确认清空"@,
            "当前 INI 有未保存修改，清空后这些修改会丢失。"@,
            "清空"@,
        ),
        ConfirmationAction::ReloadEncryptedIni(name) => (
            "确认重新载入"@,
            "当前 INI 有未保存修改，重新载入 "@ + display_name(opt_view(name)) + " 后这些修改会丢失。"@,
            "重新载入"@,
        ),
        ConfirmationAction::DeleteHistory(id) => ("确认删除"@, "删除历史摘要 "@ + id@ + " 后不可撤销。"@, "删除"@),
    }
}

fn framed_file_name(lead: &str, name: &Option<String>, tail: &str) -> (r: String)
    ensures
        r@ == lead@ + display_name(opt_view(*name)) + tail@,
{
    let mut out = owned(lead);
    let shown = match name {
        Some(n) => file_display_name(Some(n.as_str())),
        None => file_display_name(None),
    };
    push_str(&mut out, shown.as_str());
    push_str(&mut out, tail);
    out
}

pub fn confirmation_content(action: &ConfirmationAction) -> (r: (&'static str, String, &'static str))
    ensures
        (r.0@, r.1@, r.2@) == confirmation_texts(*action),
{
    match action {
        ConfirmationAction::StartLive => (
            "确认开始",
            owned("开始实时抓包会清空当前统计并重新检测游戏连接。"),
            "开始",
        ),
        ConfirmationAction::ResetSession => (
            "确认重置",
            owned("将停止当前任务并清空本次统计、深渊状态和明细缓存。"),
            "重置",
        ),
        ConfirmationAction::ImportPcapng(name) => (
            "确认导入",
            framed_file_name("导入 ", name, " 会停止当前任务并清空现有统计。"),
            "导入",
        ),
        ConfirmationAction::ImportCaptureJson(name) => (
            "确认导入",
            framed_file_name("导入 ", name, " 会停止当前任务并清空现有统计。"),
            "导入",
        ),
        ConfirmationAction::ClearEncryptedIni => (
            "确认清空",
            owned("当前 INI 有未保存修改，清空后这些修改会丢失。"),
            "清空",
        ),
        ConfirmationAction::ReloadEncryptedIni(name) => (
            "确认重新载入",
            framed_file_name("当前 INI 有未保存修改，重新载入 ", name, " 后这些修改会丢失。"),
            "重新载入",
        ),
        ConfirmationAction::DeleteHistory(record_id) => {
            let mut out = owned("删除历史摘要 ");
            push_str(&mut out, record_id.as_str());
            push_str(&mut out, " 后不可撤销。");
            ("确认删除", out, "删除")
        },
    }
}

/// Decimal digits grouped by three from the right with `,`.
pub open spec fn grouped(digits: Seq<char>) -> Seq<char>
    decreases digits.len(),
{
    if digits.len() <= 3 {
        digits
    } else {
        grouped(digits.take(digits.len() - 3)) + ","@ + digits.skip(digits.len() - 3)
    }
}

/// An integer with thousands separators, with a leading `-` when negative.
pub open spec fn grouped_integer(n: i64) -> Seq<char> {
    if n < 0 {
        "-"@ + grouped(decimal((-n) as nat))
    } else {
        grouped(decimal(n as nat))
    }
}

fn push_grouped(out: &mut String, digits: &Vec<char>, n: usize)
    requires
        n <= digits@.len(),
    ensures
        final(out)@ == old(out)@ + grouped(digits@.take(n as int)),
    decreases n,
{
    let ghost d = digits@.take(n as int);
    if n <= 3 {
        let mut i: usize = 0;
        while i < n
            invariant
                i <= n <= digits@.len(),
                d == digits@.take(n as int),
                out@ == old(out)@ + d.take(i as int),
            decreases n - i,
        {
            push_char(out, digits[i]);
            i += 1;
            assert(out@ =~= old(out)@ + d.take(i as int));
        }
        assert(d.take(n as int) =~= d);
    } else {
        push_grouped(out, digits, n - 3);
        assert(d.take(d.len() - 3) =~= digits@.take(n - 3));
        push_char(out, ',');
        let mut i: usize = n - 3;
        let ghost mid = out@;
        while i < n
            invariant
                3 < n <= digits@.len(),
                n - 3 <= i <= n,
                d == digits@.take(n as int),
                out@ == mid + d.subrange(n - 3, i as int),
            decreases n - i,
        {
            push_char(out, digits[i]);
            i += 1;
            assert(out@ =~= mid + d.subrange(n - 3, i as int));
        }
        assert(d.subrange(n - 3, n as int) =~= d.skip(d.len() - 3));
        proof {
            reveal_strlit(",");
        }
        assert(out@ =~= old(out)@ + grouped(d));
    }
}

/// The first character of a monster's name that is not white space, or `?`
/// for a name without one: the text of its icon.
pub open spec fn icon_text(name: Seq<char>) -> Seq<char> {
    let t = trim_start(name);
    if t.len() > 0 {
        seq![t[0]]
    } else {
        seq!['?']
    }
}

pub fn monster_icon_text(monster: &AbyssMonsterEntry) -> (r: String)
    ensures
        r@ == icon_text(monster.name@),
{
    let v = chars_of(monster.name.as_str());
    let mut i: usize = 0;
    assert(v@.skip(0) =~= v@);
    while i < v.len() && is_whitespace_exec(v[i])
        invariant
            i <= v@.len(),
            v@ == monster.name@,
            trim_start(v@) == trim_start(v@.skip(i as int)),
        decreases v.len() - i,
    {
        assert(v@.skip(i as int).drop_first() =~= v@.skip(i + 1));
        i += 1;
    }
    let mut out = String::new();
    if i < v.len() {
        assert(v@.skip(i as int)[0] == v@[i as int]);
        push_char(&mut out, v[i]);
    } else {
        assert(v@.skip(i as int) =~= Seq::<char>::empty());
        push_char(&mut out, '?');
    }
    out
}

/// An integer's digits, with a leading `-` when negative.
pub open spec fn signed_decimal(n: i64) -> Seq<char> {
    if n < 0 {
        "-"@ + decimal((-n) as nat)
    } else {
        decimal(n as nat)
    }
}

/// The plain digits of a damage number drawn from digit images
/// (a rounded damage value).
pub fn damage_number_digits(rounded: i64) -> (r: String)
    ensures
        r@ == signed_decimal(rounded),
{
    let mut out = String::new();
    if rounded < 0 {
        push_char(&mut out, '-');
        let magnitude: u64 = ((-(rounded + 1)) as u64) + 1;
        push_decimal(&mut out, magnitude);
        proof {
            reveal_strlit("-");
        }
        assert(out@ =~= signed_decimal(rounded));
    } else {
        push_decimal(&mut out, rounded as u64);
    }
    out
}

/// A rounded number as displayed: its digits grouped by thousands.
pub fn grouped_number(rounded: i64) -> (r: String)
    requires
        rounded > i64::MIN,
    ensures
        r@ == grouped_integer(rounded),
{
    let magnitude: u64 = if rounded < 0 {
        (-rounded) as u64
    } else {
        rounded as u64
    };
    let digits = decimal_chars(magnitude);
    let mut out = String::new();
    if rounded < 0 {
        push_char(&mut out, '-');
    }
    push_grouped(&mut out, &digits, digits.len());
    assert(digits@.take(digits@.len() as int) =~= digits@);
    proof {
        reveal_strlit("-");
    }
    assert(out@ =~= grouped_integer(rounded));
    out
}

#[derive(Clone, Copy, Debug, PartialEq, Eq, Structural)]
pub enum DebugImportKind {
    Pcapng,
    CaptureJson,
    EncryptedIni,
}

impl DebugImportKind {
    pub fn label(self) -> (r: &'static str)
        ensures
            r == (match self {
                DebugImportKind::Pcapng => "PCAPNG",
                DebugImportKind::CaptureJson => "抓包 JSON",
                DebugImportKind::EncryptedIni => "加密 INI",
            }),
    {
        match self {
            DebugImportKind::Pcapng => "PCAPNG",
            DebugImportKind::CaptureJson => "抓包 JSON",
            DebugImportKind::EncryptedIni => "加密 INI",
        }
    }
}

/// A character card's title: the Chinese name, else the English name, else "ID <id>".
pub open spec fn primary_name(name_zh: Seq<char>, name_en: Seq<char>, id: Seq<char>) -> Seq<char> {
    if trim(name_zh).len() > 0 {
        trim(name_zh)
    } else if trim(name_en).len() > 0 {
        trim(name_en)
    } else {
        "ID "@ + id
    }
}

pub fn character_editor_primary_name(name_zh: &str, name_en: &str, id: &str) -> (r: String)
    ensures
        r@ == primary_name(name_zh@, name_en@, id@),
{
    let zh = trimmed(name_zh);
    let en = trimmed(name_en);
    if !zh.as_str().is_empty() {
        zh
    } else if !en.as_str().is_empty() {
        en
    } else {
        let mut out = owned("ID ");
        push_str(&mut out, id);
        out
    }
}

/// A character card's second line: "ID <id>", then " · " and the English
/// name when both names are given and differ.
pub open spec fn secondary_line(name_zh: Seq<char>, name_en: Seq<char>, id: Seq<char>) -> Seq<char> {
    let zh = trim(name_zh);
    let en = trim(name_en);
    if zh.len() > 0 && en.len() > 0 && zh != en {
        "ID "@ + id + " · "@ + en
    } else {
        "ID "@ + id
    }
}

pub fn character_editor_secondary_line(name_zh: &str, name_en: &str, id: &str) -> (r: String)
    ensures
        r@ == secondary_line(name_zh@, name_en@, id@),
{
    let zh = trimmed(name_zh);
    let en = trimmed(name_en);
    let mut out = owned("ID ");
    push_str(&mut out, id);
    if !zh.as_str().is_empty() && !en.as_str().is_empty() && !str_eq(zh.as_str(), en.as_str()) {
        push_str(&mut out, " · ");
        push_str(&mut out, en.as_str());
    }
    out
}

/// A character card's hover text: the title, the id, the English name when
/// it is not the title, and the attribute when given.
pub open spec fn card_hover_text(
    id: Seq<char>,
    name_zh: Seq<char>,
    name_en: Seq<char>,
    attribute: Seq<char>,
) -> Seq<char> {
    let primary = primary_name(name_zh, name_en, id);
    let en = trim(name_en);
    let a = trim(attribute);
    let base = primary + "\nID "@ + id;
    let with_en = if en.len() > 0 && en != primary {
        base + "\n英文名 "@ + en
    } else {
        base
    };
    if a.len() > 0 {
        with_en + "\n属性 "@ + a
    } else {
        with_en
    }
}

pub fn character_editor_card_hover_text(id: &str, name_zh: &str, name_en: &str, attribute: &str) -> (r:
    String)
    ensures
        r@ == card_hover_text(id@, name_zh@, name_en@, attribute@),
{
    let primary = character_editor_primary_name(name_zh, name_en, id);
    let mut text = primary.clone();
    push_str(&mut text, "\nID ");
    push_str(&mut text, id);
    let en = trimmed(name_en);
    if !en.as_str().is_empty() && !str_eq(en.as_str(), primary.as_str()) {
        push_str(&mut text, "\n英文名 ");
        push_str(&mut text, en.as_str());
    }
    let a = trimmed(attribute);
    if !a.as_str().is_empty() {
        push_str(&mut text, "\n属性 ");
        push_str(&mut text, a.as_str());
    }
    text
}

/// A Unicode control character (general category Cc).
pub open spec fn is_control(c: char) -> bool {
    let v = c as u32;
    v <= 0x1F || (0x7F <= v && v <= 0x9F)
}

pub open spec fn hex_digit(d: nat) -> char {
    if d < 10 {
        (d + '0' as nat) as char
    } else {
        (d - 10 + 'a' as nat) as char
    }
}

/// `\u` and four lower-case hex digits of `v`.
pub open spec fn unicode_escape(v: nat) -> Seq<char> {
    seq![
        '\\',
        'u',
        hex_digit((v / 4096) % 16),
        hex_digit((v / 256) % 16),
        hex_digit((v / 16) % 16),
        hex_digit(v % 16),
    ]
}

/// The escaped form of one character inside a JSON string literal.
pub open spec fn escaped_char(c: char) -> Seq<char> {
    if c == '"' {
        seq!['\\', '"']
    } else if c == '\\' {
        seq!['\\', '\\']
    } else if c == '\n' {
        seq!['\\', 'n']
    } else if c == '\r' {
        seq!['\\', 'r']
    } else if c == '\t' {
        seq!['\\', 't']
    } else if c as u32 == 0x08 {
        seq!['\\', 'b']
    } else if c as u32 == 0x0C {
        seq!['\\', 'f']
    } else if is_control(c) {
        unicode_escape(c as u32 as nat)
    } else {
        seq![c]
    }
}

pub open spec fn escaped(s: Seq<char>) -> Seq<char>
    decreases s.len(),
{
    if s.len() == 0 {
        Seq::empty()
    } else {
        escaped(s.drop_last()) + escaped_char(s.last())
    }
}

/// The JSON string literal of `value`.
pub open spec fn json_literal(value: Seq<char>) -> Seq<char> {
    seq!['"'] + escaped(value) + seq!['"']
}

fn hex_digit_exec(d: u32) -> (c: char)
    requires
        d < 16,
    ensures
        c == hex_digit(d as nat),
{
    if d < 10 {
        ((d as u8) + 48u8) as char
    } else {
        ((d as u8) - 10 + 97u8) as char
    }
}

fn push_escaped(out: &mut String, c: char)
    ensures
        final(out)@ == old(out)@ + escaped_char(c),
{
    let ghost before = out@;
    if c == '"' {
        push_char(out, '\\');
        push_char(out, '"');
    } else if c == '\\' {
        push_char(out, '\\');
        push_char(out, '\\');
    } else if c == '\n' {
        push_char(out, '\\');
        push_char(out, 'n');
    } else if c == '\r' {
        push_char(out, '\\');
        push_char(out, 'r');
    } else if c == '\t' {
        push_char(out, '\\');
        push_char(out, 't');
    } else if c as u32 == 0x08 {
        push_char(out, '\\');
        push_char(out, 'b');
    } else if c as u32 == 0x0C {
        push_char(out, '\\');
        push_char(out, 'f');
    } else if c as u32 <= 0x1F || (0x7F <= c as u32 && c as u32 <= 0x9F) {
        let v = c as u32;
        push_char(out, '\\');
        push_char(out, 'u');
        push_char(out, hex_digit_exec((v / 4096) % 16));
        push_char(out, hex_digit_exec((v / 256) % 16));
        push_char(out, hex_digit_exec((v / 16) % 16));
        push_char(out, hex_digit_exec(v % 16));
    } else {
        push_char(out, c);
    }
    assert(out@ =~= before + escaped_char(c));
}

pub fn json_string(value: &str) -> (r: String)
    ensures
        r@ == json_literal(value@),
{
    let v = chars_of(value);
    let mut out = String::new();
    push_char(&mut out, '"');
    let mut i: usize = 0;
    while i < v.len()
        invariant
            i <= v.len(),
            v@ == value@,
            out@ == seq!['"'] + escaped(v@.take(i as int)),
        decreases v.len() - i,
    {
        push_escaped(&mut out, v[i]);
        i += 1;
        assert(v@.take(i as int).drop_last() =~= v@.take(i - 1));
        assert(out@ =~= seq!['"'] + escaped(v@.take(i as int)));
    }
    push_char(&mut out, '"');
    assert(v@.take(v.len() as int) =~= v@);
    out
}

} // verus!
