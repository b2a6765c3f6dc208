//! The theme analyzer: reads the model's labelled report (patterns,
//! insights, moods) into an `EchoAnalysis`.
use vstd::prelude::*;
use crate::text::{
    chars_of, find_char, find_char_from, find_seq, find_seq_from, lines, matches_at, matches_at_exec,
    slice, split_lines, string_of, string_views, trim, trim_chars, views,
};
use crate::types::{AdapterError, ChatResponse, EchoAnalysis, EchoPattern, MoodShare};

verus! {

broadcast use vstd::string::group_string_axioms;

pub const PATTERNS_LABEL: &'static str = "PATTERNS:";

pub const INSIGHTS_LABEL: &'static str = "INSIGHTS:";

pub const MOODS_LABEL: &'static str = "MOODS:";

/// Strength given to a pattern the model named, in per cent.
pub const NAMED_STRENGTH: u32 = 80;

/// Strength of the pattern put in when the model named none, in per cent.
pub const HABIT_STRENGTH: u32 = 70;

/// Above this many entries, a reply without patterns still yields the habit pattern.
pub const HABIT_MIN_ENTRIES: usize = 3;

/// The whole, in the millionths that mood shares are counted in.
pub const WHOLE_SHARE: u32 = 1_000_000;

/// A pattern without its identifier, which is drawn at random.
pub struct PatternView {
    pub title: Seq<char>,
    pub description: Seq<char>,
    pub strength: int,
    pub entry_ids: Seq<Seq<char>>,
    pub tags: Seq<Seq<char>>,
    pub pattern_type: Seq<char>,
}

/// A report: patterns, insights, and (mood, share) pairs in order of first mention.
pub struct ReportView {
    pub patterns: Seq<PatternView>,
    pub insights: Seq<Seq<char>>,
    pub mood_trends: Seq<(Seq<char>, int)>,
}

impl View for EchoPattern {
    type V = PatternView;

    open spec fn view(&self) -> PatternView {
        PatternView {
            title: self.title@,
            description: self.description@,
            strength: self.strength as int,
            entry_ids: string_views(self.entry_ids@),
            tags: string_views(self.tags@),
            pattern_type: self.pattern_type@,
        }
    }
}

pub open spec fn pattern_views(s: Seq<EchoPattern>) -> Seq<PatternView> {
    s.map_values(|p: EchoPattern| p@)
}

pub open spec fn mood_views(s: Seq<MoodShare>) -> Seq<(Seq<char>, int)> {
    s.map_values(|m: MoodShare| (m.mood@, m.share as int))
}

impl View for EchoAnalysis {
    type V = ReportView;

    open spec fn view(&self) -> ReportView {
        ReportView {
            patterns: pattern_views(self.patterns@),
            insights: string_views(self.insights@),
            mood_trends: mood_views(self.mood_trends@),
        }
    }
}

/// Does one of the three section labels start at `j`?
pub open spec fn label_at(s: Seq<char>, j: int) -> bool {
    ||| matches_at(s, PATTERNS_LABEL@, j)
    ||| matches_at(s, INSIGHTS_LABEL@, j)
    ||| matches_at(s, MOODS_LABEL@, j)
}

/// The first index at or after `i` where a label starts, or the length.
pub open spec fn next_label(s: Seq<char>, i: int) -> int
    decreases s.len() - i,
{
    if i < 0 || i >= s.len() {
        s.len() as int
    } else if label_at(s, i) {
        i
    } else {
        next_label(s, i + 1)
    }
}

/// The text after the first occurrence of `label`, up to the next label of
/// any kind; empty when `label` does not occur.
pub open spec fn section(s: Seq<char>, label: Seq<char>) -> Seq<char> {
    let p = find_seq(s, label, 0);
    if p < 0 {
        seq![]
    } else {
        let a = p + label.len();
        s.subrange(a, next_label(s, a))
    }
}

/// Does the line start with the bullet `"- "`?
pub open spec fn is_bullet(l: Seq<char>) -> bool {
    l.len() >= 2 && l[0] == '-' && l[1] == ' '
}

pub open spec fn bullet_body(l: Seq<char>) -> Seq<char> {
    l.subrange(2, l.len() as int)
}

/// The text of a bullet before its first colon, trimmed.
pub open spec fn key_part(b: Seq<char>) -> Seq<char> {
    trim(b.subrange(0, find_char(b, ':', 0)))
}

/// The text of a bullet after its first colon, trimmed.
pub open spec fn value_part(b: Seq<char>) -> Seq<char> {
    trim(b.subrange(find_char(b, ':', 0) + 1, b.len() as int))
}

/// `- title: description`, with a non-empty title.
pub open spec fn pattern_line(l: Seq<char>) -> Option<(Seq<char>, Seq<char>)> {
    let b = bullet_body(l);
    if is_bullet(l) && find_char(b, ':', 0) < b.len() && key_part(b).len() > 0 {
        Some((key_part(b), value_part(b)))
    } else {
        None
    }
}

/// `- insight`.
pub open spec fn insight_line(l: Seq<char>) -> Option<Seq<char>> {
    if is_bullet(l) {
        Some(trim(bullet_body(l)))
    } else {
        None
    }
}

/// `- mood: percentage`, with a percentage that reads as a number.
pub open spec fn mood_line(l: Seq<char>) -> Option<(Seq<char>, int)> {
    let b = bullet_body(l);
    if is_bullet(l) && find_char(b, ':', 0) < b.len() && percent_share(
        drop_percent(value_part(b)),
    ) is Some {
        Some((key_part(b), percent_share(drop_percent(value_part(b)))->Some_0))
    } else {
        None
    }
}

pub open spec fn is_digit(c: char) -> bool {
    48 <= c as u32 <= 57
}

pub open spec fn digit_value(c: char) -> int {
    c as u32 - 48
}

pub open spec fn all_digits(s: Seq<char>) -> bool {
    forall|i: int| 0 <= i < s.len() ==> is_digit(#[trigger] s[i])
}

/// The number that a run of decimal digits writes.
pub open spec fn digits_value(s: Seq<char>) -> int
    decreases s.len(),
{
    if s.len() == 0 {
        0
    } else {
        digits_value(s.drop_last()) * 10 + digit_value(s.last())
    }
}

/// The first `k` digits of a fraction part as an integer, short parts padded with zeros.
pub open spec fn frac_units(f: Seq<char>, k: nat) -> int
    decreases k,
{
    if k == 0 {
        0
    } else {
        frac_units(f, (k - 1) as nat) * 10 + if k - 1 < f.len() {
            digit_value(f[k - 1])
        } else {
            0
        }
    }
}

/// `s` with every `'%'` removed.
pub open spec fn drop_percent(s: Seq<char>) -> Seq<char>
    decreases s.len(),
{
    if s.len() == 0 {
        s
    } else if s.last() == '%' {
        drop_percent(s.drop_last())
    } else {
        drop_percent(s.drop_last()).push(s.last())
    }
}

/// A percentage written `digits[.digits]` (at least one digit in all), as a
/// share in millionths: fraction digits past the fourth are dropped, and
/// anything above a hundred per cent counts as the whole.
pub open spec fn percent_share(t: Seq<char>) -> Option<int> {
    let d = find_char(t, '.', 0);
    let ip = t.subrange(0, d);
    let fp = if d < t.len() {
        t.subrange(d + 1, t.len() as int)
    } else {
        seq![]
    };
    if all_digits(ip) && all_digits(fp) && ip.len() + fp.len() > 0 {
        let v = digits_value(ip) * 10_000 + frac_units(fp, 4);
        Some(if v > WHOLE_SHARE { WHOLE_SHARE as int } else { v })
    } else {
        None
    }
}

/// Position of the last pair among the first `n` of `m` whose mood is `k`, or `-1`.
pub open spec fn key_pos(m: Seq<(Seq<char>, int)>, k: Seq<char>, n: int) -> int
    decreases n,
{
    if n <= 0 {
        -1
    } else if m[n - 1].0 == k {
        n - 1
    } else {
        key_pos(m, k, n - 1)
    }
}

/// `m` with `k` mapped to `v`: an existing pair is overwritten in place, a new one appended.
pub open spec fn upsert(m: Seq<(Seq<char>, int)>, k: Seq<char>, v: int) -> Seq<(Seq<char>, int)> {
    let i = key_pos(m, k, m.len() as int);
    if i >= 0 {
        m.update(i, (k, v))
    } else {
        m.push((k, v))
    }
}

pub open spec fn patterns_of(ls: Seq<Seq<char>>) -> Seq<(Seq<char>, Seq<char>)>
    decreases ls.len(),
{
    if ls.len() == 0 {
        seq![]
    } else {
        match pattern_line(ls.last()) {
            Some(p) => patterns_of(ls.drop_last()).push(p),
            None => patterns_of(ls.drop_last()),
        }
    }
}

pub open spec fn insights_of(ls: Seq<Seq<char>>) -> Seq<Seq<char>>
    decreases ls.len(),
{
    if ls.len() == 0 {
        seq![]
    } else {
        match insight_line(ls.last()) {
            Some(i) => insights_of(ls.drop_last()).push(i),
            None => insights_of(ls.drop_last()),
        }
    }
}

pub open spec fn moods_of(ls: Seq<Seq<char>>) -> Seq<(Seq<char>, int)>
    decreases ls.len(),
{
    if ls.len() == 0 {
        seq![]
    } else {
        match mood_line(ls.last()) {
            Some(m) => upsert(moods_of(ls.drop_last()), m.0, m.1),
            None => moods_of(ls.drop_last()),
        }
    }
}

/// A pattern that the model named.
pub open spec fn named_pattern(p: (Seq<char>, Seq<char>)) -> PatternView {
    PatternView {
        title: p.0,
        description: p.1,
        strength: NAMED_STRENGTH as int,
        entry_ids: seq![],
        tags: seq![],
        pattern_type: "custom"@,
    }
}

/// The pattern put in when the model named none over a long enough batch.
pub open spec fn habit_pattern() -> PatternView {
    PatternView {
        title: "Regular Journaling"@,
        description: "You maintain a consistent journaling habit"@,
        strength: HABIT_STRENGTH as int,
        entry_ids: seq![],
        tags: seq!["consistency"@],
        pattern_type: "habit"@,
    }
}

/// The report read from a model reply over `entry_count` entries.
pub open spec fn report_from_reply(reply: Seq<char>, entry_count: int) -> ReportView {
    let found = patterns_of(lines(section(reply, PATTERNS_LABEL@))).map_values(
        |p: (Seq<char>, Seq<char>)| named_pattern(p),
    );
    ReportView {
        patterns: if found.len() == 0 && entry_count > HABIT_MIN_ENTRIES {
            seq![habit_pattern()]
        } else {
            found
        },
        insights: insights_of(lines(section(reply, INSIGHTS_LABEL@))),
        mood_trends: moods_of(lines(section(reply, MOODS_LABEL@))),
    }
}

/// The report given when the model could not be asked.
pub open spec fn fallback_report() -> ReportView {
    ReportView {
        patterns: seq![],
        insights: seq![],
        mood_trends: seq![("neutral"@, 500_000), ("positive"@, 300_000), ("negative"@, 200_000)],
    }
}

/// The report of an empty batch.
pub open spec fn empty_report() -> ReportView {
    ReportView { patterns: seq![], insights: seq![], mood_trends: seq![] }
}

/// Relies on `uuid::Uuid::new_v4` and its `Display`: a random identifier,
/// written in the 36-character hyphenated form.
#[verifier::external_body]
fn fresh_pattern_id() -> (r: String)
    ensures
        r@.len() == 36,
{
    uuid::Uuid::new_v4().to_string()
}

fn label_at_exec(v: &Vec<char>, p: &Vec<char>, i: &Vec<char>, m: &Vec<char>, j: usize) -> (r: bool)
    requires
        p@ == PATTERNS_LABEL@,
        i@ == INSIGHTS_LABEL@,
        m@ == MOODS_LABEL@,
    ensures
        r == label_at(v@, j as int),
{
    matches_at_exec(v, p, j) || matches_at_exec(v, i, j) || matches_at_exec(v, m, j)
}

/// The section that follows `label` in `v`.
fn section_exec(v: &Vec<char>, label: &Vec<char>, p: &Vec<char>, i: &Vec<char>, m: &Vec<char>) -> (r: Vec<char>)
    requires
        p@ == PATTERNS_LABEL@,
        i@ == INSIGHTS_LABEL@,
        m@ == MOODS_LABEL@,
    ensures
        r@ == section(v@, label@),
{
    match find_seq_from(v, label, 0) {
        None => Vec::new(),
        Some(at) => {
            let a = at + label.len();
            let mut e: usize = a;
            while e < v.len() && !label_at_exec(v, p, i, m, e)
                invariant
                    a <= e <= v.len(),
                    p@ == PATTERNS_LABEL@,
                    i@ == INSIGHTS_LABEL@,
                    m@ == MOODS_LABEL@,
                    next_label(v@, e as int) == next_label(v@, a as int),
                decreases v.len() - e,
            {
                e = e + 1;
            }
            slice(v, a, e)
        },
    }
}

fn is_bullet_exec(l: &Vec<char>) -> (r: bool)
    ensures
        r == is_bullet(l@),
{
    l.len() >= 2 && l[0] == '-' && l[1] == ' '
}

/// The title and description of a pattern line.
fn pattern_from_line(l: &Vec<char>) -> (r: Option<(Vec<char>, Vec<char>)>)
    ensures
        match r {
            Some(p) => pattern_line(l@) == Some((p.0@, p.1@)),
            None => pattern_line(l@) is None,
        },
{
    if !is_bullet_exec(l) {
        return None;
    }
    let b = slice(l, 2, l.len());
    assert(b@ == bullet_body(l@));
    let c = find_char_from(&b, ':', 0);
    if c >= b.len() {
        return None;
    }
    let title = trim_chars(&slice(&b, 0, c));
    if title.len() == 0 {
        return None;
    }
    let description = trim_chars(&slice(&b, c + 1, b.len()));
    Some((title, description))
}

/// The text of an insight line.
fn insight_from_line(l: &Vec<char>) -> (r: Option<Vec<char>>)
    ensures
        match r {
            Some(t) => insight_line(l@) == Some(t@),
            None => insight_line(l@) is None,
        },
{
    if !is_bullet_exec(l) {
        return None;
    }
    let b = slice(l, 2, l.len());
    Some(trim_chars(&b))
}

fn drop_percent_exec(v: &Vec<char>) -> (r: Vec<char>)
    ensures
        r@ == drop_percent(v@),
{
    let mut r: Vec<char> = Vec::new();
    let mut k: usize = 0;
    while k < v.len()
        invariant
            k <= v.len(),
            r@ == drop_percent(v@.take(k as int)),
        decreases v.len() - k,
    {
        assert(v@.take(k + 1).drop_last() =~= v@.take(k as int));
        if v[k] != '%' {
            r.push(v[k]);
        }
        k = k + 1;
    }
    assert(v@.take(k as int) =~= v@);
    r
}

fn all_digits_exec(v: &Vec<char>) -> (r: bool)
    ensures
        r == all_digits(v@),
{
    let mut k: usize = 0;
    while k < v.len()
        invariant
            k <= v.len(),
            forall|j: int| 0 <= j < k ==> is_digit(#[trigger] v@[j]),
        decreases v.len() - k,
    {
        let u = v[k] as u32;
        if u < 48 || u > 57 {
            return false;
        }
        k = k + 1;
    }
    true
}

proof fn lemma_digits_nonneg(s: Seq<char>)
    requires
        all_digits(s),
    ensures
        digits_value(s) >= 0,
    decreases s.len(),
{
    if s.len() > 0 {
        assert(all_digits(s.drop_last()));
        lemma_digits_nonneg(s.drop_last());
        assert(is_digit(s[s.len() - 1]));
    }
}

/// `min(digits_value(v), 101)`: beyond a hundred the exact value no longer matters.
fn capped_digits_value(v: &Vec<char>) -> (r: u32)
    requires
        all_digits(v@),
    ensures
        r <= 101,
        r < 101 ==> r as int == digits_value(v@),
        r == 101 ==> digits_value(v@) >= 101,
{
    let mut acc: u32 = 0;
    let mut k: usize = 0;
    while k < v.len()
        invariant
            k <= v.len(),
            all_digits(v@),
            acc <= 101,
            acc < 101 ==> acc as int == digits_value(v@.take(k as int)),
            acc == 101 ==> digits_value(v@.take(k as int)) >= 101,
        decreases v.len() - k,
    {
        let ghost prev = v@.take(k as int);
        assert(v@.take(k + 1).drop_last() =~= prev);
        assert(is_digit(v@[k as int]));
        let d = v[k] as u32 - 48;
        if acc < 101 {
            let next = acc * 10 + d;
            acc = if next > 101 { 101 } else { next };
        } else {
            proof {
                assert(all_digits(prev));
                lemma_digits_nonneg(prev);
            }
        }
        k = k + 1;
    }
    assert(v@.take(k as int) =~= v@);
    acc
}

fn digit_or_zero(f: &Vec<char>, k: usize) -> (r: u32)
    requires
        all_digits(f@),
    ensures
        r <= 9,
        r as int == if k < f.len() {
            digit_value(f@[k as int])
        } else {
            0
        },
{
    if k < f.len() {
        assert(is_digit(f@[k as int]));
        f[k] as u32 - 48
    } else {
        0
    }
}

/// The share, in millionths, that a percentage text stands for.
fn percent_share_exec(t: &Vec<char>) -> (r: Option<u32>)
    ensures
        match r {
            Some(v) => percent_share(t@) == Some(v as int),
            None => percent_share(t@) is None,
        },
{
    let d = find_char_from(t, '.', 0);
    let ip = slice(t, 0, d);
    let fp = if d < t.len() {
        slice(t, d + 1, t.len())
    } else {
        Vec::new()
    };
    assert(fp@ == (if d < t.len() {
        t@.subrange(d + 1, t@.len() as int)
    } else {
        seq![]
    }));
    if !all_digits_exec(&ip) || !all_digits_exec(&fp) || ip.len() + fp.len() == 0 {
        return None;
    }
    let whole = capped_digits_value(&ip);
    let mut frac = digit_or_zero(&fp, 0);
    frac = frac * 10 + digit_or_zero(&fp, 1);
    frac = frac * 10 + digit_or_zero(&fp, 2);
    frac = frac * 10 + digit_or_zero(&fp, 3);
    proof {
        reveal_with_fuel(frac_units, 5);
    }
    assert(frac as int == frac_units(fp@, 4));
    let v = whole * 10_000 + frac;
    Some(if v > WHOLE_SHARE { WHOLE_SHARE } else { v })
}

/// The mood and share of a mood line.
fn mood_from_line(l: &Vec<char>) -> (r: Option<(Vec<char>, u32)>)
    ensures
        match r {
            Some(m) => mood_line(l@) == Some((m.0@, m.1 as int)),
            None => mood_line(l@) is None,
        },
{
    if !is_bullet_exec(l) {
        return None;
    }
    let b = slice(l, 2, l.len());
    assert(b@ == bullet_body(l@));
    let c = find_char_from(&b, ':', 0);
    if c >= b.len() {
        return None;
    }
    let value = drop_percent_exec(&trim_chars(&slice(&b, c + 1, b.len())));
    match percent_share_exec(&value) {
        None => None,
        Some(share) => {
            let key = trim_chars(&slice(&b, 0, c));
            Some((key, share))
        },
    }
}

/// Position of the last pair in `moods` whose mood is `mood`.
fn mood_position(moods: &Vec<MoodShare>, mood: &String) -> (r: Option<usize>)
    ensures
        match r {
            Some(j) => j < moods.len() && j as int == key_pos(
                mood_views(moods@),
                mood@,
                moods.len() as int,
            ),
            None => key_pos(mood_views(moods@), mood@, moods.len() as int) == -1,
        },
{
    let ghost mv = mood_views(moods@);
    let mut j: usize = moods.len();
    while j > 0
        invariant
            j <= moods.len(),
            mv == mood_views(moods@),
            key_pos(mv, mood@, j as int) == key_pos(mv, mood@, moods.len() as int),
        decreases j,
    {
        if moods[j - 1].mood == *mood {
            assert(mv[j - 1].0 == mood@);
            return Some(j - 1);
        }
        j = j - 1;
    }
    None
}

/// Sets the share of `mood`, overwriting an earlier pair for the same mood.
fn upsert_mood(moods: &mut Vec<MoodShare>, mood: String, share: u32)
    ensures
        mood_views(final(moods)@) == upsert(mood_views(old(moods)@), mood@, share as int),
{
    let ghost mv = mood_views(moods@);
    let ghost key = mood@;
    match mood_position(moods, &mood) {
        Some(j) => {
            moods.set(j, MoodShare { mood, share });
            assert(mood_views(moods@) =~= mv.update(j as int, (key, share as int)));
        },
        None => {
            moods.push(MoodShare { mood, share });
            assert(mood_views(moods@) =~= mv.push((key, share as int)));
        },
    }
}

/// The report read from a model reply over `entry_count` entries. Each
/// pattern gets a fresh random identifier.
pub fn analysis_from_reply(reply: &str, entry_count: usize) -> (r: EchoAnalysis)
    ensures
        r@ == report_from_reply(reply@, entry_count as int),
        forall|i: int| 0 <= i < r.patterns.len() ==> (#[trigger] r.patterns@[i]).id@.len() == 36,
{
    let v = chars_of(reply);
    let p = chars_of(PATTERNS_LABEL);
    let i = chars_of(INSIGHTS_LABEL);
    let m = chars_of(MOODS_LABEL);

    let pattern_lines = split_lines(&section_exec(&v, &p, &p, &i, &m));
    let ghost pl = views(pattern_lines@);
    let mut patterns: Vec<EchoPattern> = Vec::new();
    let mut k: usize = 0;
    while k < pattern_lines.len()
        invariant
            k <= pattern_lines.len(),
            pl == views(pattern_lines@),
            pattern_views(patterns@) == patterns_of(pl.take(k as int)).map_values(
                |q: (Seq<char>, Seq<char>)| named_pattern(q),
            ),
            forall|n: int| 0 <= n < patterns.len() ==> (#[trigger] patterns@[n]).id@.len() == 36,
        decreases pattern_lines.len() - k,
    {
        assert(pl.take(k + 1).drop_last() =~= pl.take(k as int));
        assert(pl[k as int] == pattern_lines@[k as int]@);
        match pattern_from_line(&pattern_lines[k]) {
            Some((title, description)) => {
                let pattern = EchoPattern {
                    id: fresh_pattern_id(),
                    title: string_of(&title),
                    description: string_of(&description),
                    strength: NAMED_STRENGTH,
                    entry_ids: Vec::new(),
                    tags: Vec::new(),
                    pattern_type: String::from_str("custom"),
                };
                let ghost before = pattern_views(patterns@);
                patterns.push(pattern);
                assert(string_views(Seq::<String>::empty()) =~= Seq::<Seq<char>>::empty());
                assert(pattern_views(patterns@) =~= before.push(pattern@));
                assert(patterns_of(pl.take(k + 1)).map_values(
                    |q: (Seq<char>, Seq<char>)| named_pattern(q),
                ) =~= before.push(named_pattern((title@, description@))));
            },
            None => {},
        }
        k = k + 1;
    }
    assert(pl.take(k as int) =~= pl);
    if patterns.len() == 0 && entry_count > HABIT_MIN_ENTRIES {
        let mut tags: Vec<String> = Vec::new();
        tags.push(String::from_str("consistency"));
        let pattern = EchoPattern {
            id: fresh_pattern_id(),
            title: String::from_str("Regular Journaling"),
            description: String::from_str("You maintain a consistent journaling habit"),
            strength: HABIT_STRENGTH,
            entry_ids: Vec::new(),
            tags,
            pattern_type: String::from_str("habit"),
        };
        patterns.push(pattern);
        assert(string_views(Seq::<String>::empty()) =~= Seq::<Seq<char>>::empty());
        assert(string_views(pattern.tags@) =~= seq!["consistency"@]);
        assert(pattern_views(patterns@) =~= seq![habit_pattern()]);
    }

    let insight_lines = split_lines(&section_exec(&v, &i, &p, &i, &m));
    let ghost il = views(insight_lines@);
    let mut insights: Vec<String> = Vec::new();
    let mut k: usize = 0;
    while k < insight_lines.len()
        invariant
            k <= insight_lines.len(),
            il == views(insight_lines@),
            string_views(insights@) == insights_of(il.take(k as int)),
        decreases insight_lines.len() - k,
    {
        assert(il.take(k + 1).drop_last() =~= il.take(k as int));
        assert(il[k as int] == insight_lines@[k as int]@);
        match insight_from_line(&insight_lines[k]) {
            Some(t) => {
                let ghost before = string_views(insights@);
                insights.push(string_of(&t));
                assert(string_views(insights@) =~= before.push(t@));
            },
            None => {},
        }
        k = k + 1;
    }
    assert(il.take(k as int) =~= il);

    let mood_lines = split_lines(&section_exec(&v, &m, &p, &i, &m));
    let ghost ml = views(mood_lines@);
    let mut mood_trends: Vec<MoodShare> = Vec::new();
    let mut k: usize = 0;
    assert(mood_views(mood_trends@) =~= moods_of(ml.take(0)));
    while k < mood_lines.len()
        invariant
            k <= mood_lines.len(),
            ml == views(mood_lines@),
            mood_views(mood_trends@) == moods_of(ml.take(k as int)),
        decreases mood_lines.len() - k,
    {
        assert(ml.take(k + 1).drop_last() =~= ml.take(k as int));
        assert(ml[k as int] == mood_lines@[k as int]@);
        match mood_from_line(&mood_lines[k]) {
            Some((mood, share)) => {
                upsert_mood(&mut mood_trends, string_of(&mood), share);
            },
            None => {},
        }
        k = k + 1;
    }
    assert(ml.take(k as int) =~= ml);
    EchoAnalysis { patterns, insights, mood_trends }
}

/// The report for a batch of `entry_count` entries once the model was
/// asked: read from its reply, or the fixed fallback when the call failed.
/// A cancellation is passed on.
pub fn analysis_from_chat(entry_count: usize, outcome: Result<ChatResponse, AdapterError>) -> (r:
    Result<EchoAnalysis, AdapterError>)
    ensures
        match outcome {
            Ok(resp) => match r {
                Ok(a) => a@ == report_from_reply(resp.response@, entry_count as int) && forall|i: int|
                    0 <= i < a.patterns.len() ==> (#[trigger] a.patterns@[i]).id@.len() == 36,
                Err(_) => false,
            },
            Err(AdapterError::Cancelled) => r == Err::<EchoAnalysis, AdapterError>(
                AdapterError::Cancelled,
            ),
            Err(_) => match r {
                Ok(a) => a@ == fallback_report(),
                Err(_) => false,
            },
        },
{
    match outcome {
        Ok(resp) => Ok(analysis_from_reply(resp.response.as_str(), entry_count)),
        Err(AdapterError::Cancelled) => Err(AdapterError::Cancelled),
        Err(_) => {
            let mut mood_trends: Vec<MoodShare> = Vec::new();
            mood_trends.push(MoodShare { mood: String::from_str("neutral"), share: 500_000 });
            mood_trends.push(MoodShare { mood: String::from_str("positive"), share: 300_000 });
            mood_trends.push(MoodShare { mood: String::from_str("negative"), share: 200_000 });
            let a = EchoAnalysis { patterns: Vec::new(), insights: Vec::new(), mood_trends };
            assert(a@.patterns =~= fallback_report().patterns);
            assert(a@.insights =~= fallback_report().insights);
            assert(a@.mood_trends =~= fallback_report().mood_trends);
            Ok(a)
        },
    }
}

/// Every pattern strength lies within 0..=100 per cent, and every mood
/// share within the whole.
pub open spec fn within_bounds(r: ReportView) -> bool {
    &&& forall|i: int| 0 <= i < r.patterns.len() ==> 0 <= (#[trigger] r.patterns[i]).strength <= 100
    &&& forall|j: int|
        0 <= j < r.mood_trends.len() ==> 0 <= (#[trigger] r.mood_trends[j]).1 <= WHOLE_SHARE
}

proof fn lemma_frac_units_nonneg(f: Seq<char>, k: nat)
    requires
        all_digits(f),
    ensures
        frac_units(f, k) >= 0,
    decreases k,
{
    if k > 0 {
        lemma_frac_units_nonneg(f, (k - 1) as nat);
        if k - 1 < f.len() {
            assert(is_digit(f[k - 1]));
        }
    }
}

proof fn lemma_percent_share_bounds(t: Seq<char>)
    ensures
        percent_share(t) matches Some(v) ==> 0 <= v <= WHOLE_SHARE,
{
    let d = find_char(t, '.', 0);
    let ip = t.subrange(0, d);
    let fp = if d < t.len() {
        t.subrange(d + 1, t.len() as int)
    } else {
        seq![]
    };
    if all_digits(ip) && all_digits(fp) && ip.len() + fp.len() > 0 {
        lemma_digits_nonneg(ip);
        lemma_frac_units_nonneg(fp, 4);
    }
}

proof fn lemma_moods_bounds(ls: Seq<Seq<char>>)
    ensures
        forall|j: int|
            0 <= j < moods_of(ls).len() ==> 0 <= (#[trigger] moods_of(ls)[j]).1 <= WHOLE_SHARE,
    decreases ls.len(),
{
    if ls.len() > 0 {
        lemma_moods_bounds(ls.drop_last());
        let before = moods_of(ls.drop_last());
        let b = bullet_body(ls.last());
        lemma_percent_share_bounds(drop_percent(value_part(b)));
        match mood_line(ls.last()) {
            Some(p) => {
                assert(0 <= p.1 <= WHOLE_SHARE);
                lemma_key_pos(before, p.0, before.len() as int);
                let after = upsert(before, p.0, p.1);
                assert forall|j: int| 0 <= j < after.len() implies 0 <= (#[trigger] after[j]).1
                    <= WHOLE_SHARE by {
                    if j < before.len() && j != key_pos(before, p.0, before.len() as int) {
                        assert(after[j] == before[j]);
                    }
                }
            },
            None => {},
        }
    }
}

/// Whatever the model replied, and whatever the batch size, the report
/// read from the reply keeps strengths within 0..=100 per cent and mood
/// shares within the whole; so do the fallback and the empty report.
pub proof fn lemma_report_bounds(reply: Seq<char>, entry_count: int)
    ensures
        within_bounds(report_from_reply(reply, entry_count)),
        within_bounds(fallback_report()),
        within_bounds(empty_report()),
{
    lemma_moods_bounds(lines(section(reply, MOODS_LABEL@)));
}

/// Reading the same reply over a batch of the same size twice gives the
/// same report, identifiers aside.
pub proof fn lemma_analysis_repeatable(
    reply: Seq<char>,
    entry_count: int,
    first: EchoAnalysis,
    second: EchoAnalysis,
)
    requires
        first@ == report_from_reply(reply, entry_count),
        second@ == report_from_reply(reply, entry_count),
    ensures
        first@ == second@,
{
}

/// A reply without a patterns label over at most three entries yields no
/// pattern: the habit pattern needs more than three entries.
pub proof fn lemma_no_habit_pattern_up_to_three(reply: Seq<char>, entry_count: int)
    requires
        find_seq(reply, PATTERNS_LABEL@, 0) == -1,
        entry_count <= HABIT_MIN_ENTRIES,
    ensures
        report_from_reply(reply, entry_count).patterns.len() == 0,
{
    let s = section(reply, PATTERNS_LABEL@);
    assert(s =~= Seq::<char>::empty());
    assert(lines(s) =~= Seq::<Seq<char>>::empty());
}

/// The moods of a report are pairwise distinct.
pub open spec fn moods_unique(m: Seq<(Seq<char>, int)>) -> bool {
    forall|i: int, j: int| 0 <= i < j < m.len() ==> (#[trigger] m[i]).0 != (#[trigger] m[j]).0
}

proof fn lemma_key_pos(m: Seq<(Seq<char>, int)>, k: Seq<char>, n: int)
    requires
        0 <= n <= m.len(),
    ensures
        -1 <= key_pos(m, k, n) < n,
        key_pos(m, k, n) >= 0 ==> m[key_pos(m, k, n)].0 == k,
        key_pos(m, k, n) == -1 ==> forall|i: int| 0 <= i < n ==> (#[trigger] m[i]).0 != k,
    decreases n,
{
    if n > 0 {
        lemma_key_pos(m, k, n - 1);
    }
}

proof fn lemma_moods_unique(ls: Seq<Seq<char>>)
    ensures
        moods_unique(moods_of(ls)),
    decreases ls.len(),
{
    if ls.len() > 0 {
        lemma_moods_unique(ls.drop_last());
        let before = moods_of(ls.drop_last());
        match mood_line(ls.last()) {
            Some(p) => {
                lemma_key_pos(before, p.0, before.len() as int);
                let after = upsert(before, p.0, p.1);
                assert forall|i: int, j: int| 0 <= i < j < after.len() implies (#[trigger] after[i]).0
                    != (#[trigger] after[j]).0 by {
                    if key_pos(before, p.0, before.len() as int) >= 0 {
                        assert(before[i].0 != before[j].0);
                    } else if j < before.len() {
                        assert(before[i].0 != before[j].0);
                    }
                }
            },
            None => {},
        }
    }
}

/// Every mood appears at most once in a report read from a reply.
pub proof fn lemma_report_moods_unique(reply: Seq<char>, entry_count: int)
    ensures
        moods_unique(report_from_reply(reply, entry_count).mood_trends),
        moods_unique(fallback_report().mood_trends),
{
    lemma_moods_unique(lines(section(reply, MOODS_LABEL@)));
    reveal_strlit("neutral");
    reveal_strlit("positive");
    reveal_strlit("negative");
    assert("neutral"@.len() != "positive"@.len());
    assert("neutral"@.len() != "negative"@.len());
    assert("positive"@[0] != "negative"@[0]);
}

} // verus!
