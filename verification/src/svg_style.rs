//! The text parts of SVG styling: `style` attributes (`key: value; ...`),
//! `<style>` sheets (`.class { key: value; ... }`), `var(--name, fallback)`
//! colors and `url(#id)` gradient references.
use vstd::prelude::*;
use crate::chars::{chars_of, same_chars, str_eq, string_of};
use crate::color::{ascii_lowercase, lowercase, to_lowercase};
use vstd::utf8::is_ascii_chars;

verus! {

broadcast use vstd::string::group_string_axioms;

/// `char::is_whitespace`: the Unicode `White_Space` characters.
pub open spec fn is_ws(c: char) -> bool {
    let v = c as u32;
    (0x09 <= v && v <= 0x0D) || v == 0x20 || v == 0x85 || v == 0xA0 || v == 0x1680 || (0x2000 <= v
        && v <= 0x200A) || v == 0x2028 || v == 0x2029 || v == 0x202F || v == 0x205F || v == 0x3000
}

pub fn is_whitespace(c: char) -> (res: bool)
    ensures
        res == is_ws(c),
{
    let v = c as u32;
    (0x09 <= v && v <= 0x0D) || v == 0x20 || v == 0x85 || v == 0xA0 || v == 0x1680 || (0x2000 <= v
        && v <= 0x200A) || v == 0x2028 || v == 0x2029 || v == 0x202F || v == 0x205F || v == 0x3000
}

/// Index of the first character that is not whitespace (the length if none).
pub open spec fn ws_prefix_len(s: Seq<char>) -> nat
    decreases s.len(),
{
    if s.len() > 0 && is_ws(s[0]) {
        1 + ws_prefix_len(s.drop_first())
    } else {
        0
    }
}

/// Number of whitespace characters at the end.
pub open spec fn ws_suffix_len(s: Seq<char>) -> nat
    decreases s.len(),
{
    if s.len() > 0 && is_ws(s.last()) {
        1 + ws_suffix_len(s.drop_last())
    } else {
        0
    }
}

/// `str::trim`: without leading and trailing whitespace.
pub open spec fn trim_spec(s: Seq<char>) -> Seq<char> {
    let t = s.skip(ws_prefix_len(s) as int);
    t.take(t.len() - ws_suffix_len(t))
}

proof fn lemma_ws_prefix_len_bound(s: Seq<char>)
    ensures
        ws_prefix_len(s) <= s.len(),
    decreases s.len(),
{
    if s.len() > 0 && is_ws(s[0]) {
        lemma_ws_prefix_len_bound(s.drop_first());
    }
}

proof fn lemma_ws_suffix_len_bound(s: Seq<char>)
    ensures
        ws_suffix_len(s) <= s.len(),
    decreases s.len(),
{
    if s.len() > 0 && is_ws(s.last()) {
        lemma_ws_suffix_len_bound(s.drop_last());
    }
}

/// `s` without leading and trailing whitespace.
pub fn trim(s: &Vec<char>) -> (res: Vec<char>)
    ensures
        res@ == trim_spec(s@),
{
    let n = s.len();
    let mut i: usize = 0;
    assert(s@.skip(0) =~= s@);
    while i < n && is_whitespace(s[i])
        invariant
            i <= n,
            n == s@.len(),
            ws_prefix_len(s@) == i + ws_prefix_len(s@.skip(i as int)),
        decreases n - i,
    {
        assert(s@.skip(i as int).drop_first() =~= s@.skip(i + 1));
        i += 1;
    }
    proof {
        let r = s@.skip(i as int);
        if r.len() > 0 {
            assert(r[0] == s@[i as int]);
        }
    }
    let ghost t = s@.skip(i as int);
    let mut j: usize = n;
    assert(t.take(t.len() as int) =~= t);
    while j > i && is_whitespace(s[j - 1])
        invariant
            i <= j <= n,
            n == s@.len(),
            t == s@.skip(i as int),
            ws_suffix_len(t) == (n - j) + ws_suffix_len(t.take(j - i)),
        decreases j,
    {
        assert(t.take(j - i).drop_last() =~= t.take(j - 1 - i));
        assert(t.take(j - i).last() == s@[j - 1]);
        j -= 1;
    }
    proof {
        let r = t.take(j - i);
        if r.len() > 0 {
            assert(r.last() == s@[j - 1]);
        }
        lemma_ws_suffix_len_bound(t);
    }
    let mut res: Vec<char> = Vec::new();
    let mut k: usize = i;
    while k < j
        invariant
            i <= k <= j <= n,
            n == s@.len(),
            res@ == s@.subrange(i as int, k as int),
        decreases j - k,
    {
        res.push(s[k]);
        assert(s@.subrange(i as int, k as int).push(s@[k as int]) =~= s@.subrange(i as int, k + 1));
        k += 1;
    }
    assert(s@.subrange(i as int, j as int) =~= t.take(t.len() - ws_suffix_len(t)));
    res
}

/// `str::split(sep)`: the pieces between the separators (one more piece than separators).
pub open spec fn split_spec(s: Seq<char>, sep: char) -> Seq<Seq<char>>
    decreases s.len(),
{
    if s.len() == 0 {
        seq![Seq::<char>::empty()]
    } else {
        let prev = split_spec(s.drop_last(), sep);
        if s.last() == sep {
            prev.push(Seq::<char>::empty())
        } else {
            prev.update(prev.len() - 1, prev.last().push(s.last()))
        }
    }
}

proof fn lemma_split_nonempty(s: Seq<char>, sep: char)
    ensures
        split_spec(s, sep).len() >= 1,
    decreases s.len(),
{
    if s.len() > 0 {
        lemma_split_nonempty(s.drop_last(), sep);
    }
}

/// The pieces of `s` between occurrences of `sep`.
pub fn split(s: &Vec<char>, sep: char) -> (res: Vec<Vec<char>>)
    ensures
        res@.len() == split_spec(s@, sep).len(),
        res@.len() >= 1,
        forall|k: int| 0 <= k < res@.len() ==> res@[k]@ == split_spec(s@, sep)[k],
{
    let mut done: Vec<Vec<char>> = Vec::new();
    let mut cur: Vec<char> = Vec::new();
    let mut i: usize = 0;
    assert(s@.take(0) =~= Seq::<char>::empty());
    while i < s.len()
        invariant
            i <= s@.len(),
            done@.len() + 1 == split_spec(s@.take(i as int), sep).len(),
            forall|k: int| 0 <= k < done@.len() ==> done@[k]@ == split_spec(s@.take(i as int), sep)[k],
            cur@ == split_spec(s@.take(i as int), sep).last(),
        decreases s.len() - i,
    {
        let ghost pre = s@.take(i as int);
        let ghost nxt = s@.take(i + 1);
        assert(nxt.drop_last() =~= pre);
        proof {
            lemma_split_nonempty(pre, sep);
        }
        let c = s[i];
        if c == sep {
            let piece = cur;
            done.push(piece);
            cur = Vec::new();
            proof {
                assert(split_spec(nxt, sep) == split_spec(pre, sep).push(Seq::<char>::empty()));
                assert forall|k: int| 0 <= k < done@.len() implies done@[k]@ == split_spec(nxt, sep)[k] by {
                    if k == done@.len() - 1 {
                        assert(split_spec(nxt, sep)[k] == split_spec(pre, sep).last());
                    }
                }
            }
            assert(cur@ =~= Seq::<char>::empty());
        } else {
            cur.push(c);
            proof {
                let ps = split_spec(pre, sep);
                assert(split_spec(nxt, sep) == ps.update(ps.len() - 1, ps.last().push(c)));
            }
        }
        i += 1;
    }
    assert(s@.take(s.len() as int) =~= s@);
    done.push(cur);
    done
}

/// Key-value entries where a later entry for a key replaces an earlier one.
pub open spec fn entries_map<V: View>(e: Seq<(String, V)>) -> Map<Seq<char>, V::V>
    decreases e.len(),
{
    if e.len() == 0 {
        Map::empty()
    } else {
        entries_map(e.drop_last()).insert(e.last().0@, e.last().1@)
    }
}

proof fn lemma_entries_map_suffix<V: View>(e: Seq<(String, V)>, i: int, k: Seq<char>)
    requires
        0 <= i <= e.len(),
        forall|j: int| i <= j < e.len() ==> e[j].0@ != k,
    ensures
        entries_map(e).contains_key(k) == entries_map(e.take(i)).contains_key(k),
        entries_map(e).contains_key(k) ==> entries_map(e)[k] == entries_map(e.take(i))[k],
    decreases e.len() - i,
{
    if i < e.len() {
        let p = e.drop_last();
        assert(p.take(i) =~= e.take(i));
        lemma_entries_map_suffix(p, i, k);
    } else {
        assert(e.take(i) =~= e);
    }
}

/// A map from names to values, as an `HashMap<String, V>` is used here:
/// inserting a key again replaces its value.
#[derive(Debug, Clone)]
pub struct StyleMap<V> {
    entries: Vec<(String, V)>,
}

impl<V: View> View for StyleMap<V> {
    type V = Map<Seq<char>, V::V>;

    closed spec fn view(&self) -> Map<Seq<char>, V::V> {
        entries_map(self.entries@)
    }
}

impl<V: View> StyleMap<V> {
    pub fn new() -> (m: Self)
        ensures
            m@ == Map::<Seq<char>, V::V>::empty(),
    {
        StyleMap { entries: Vec::new() }
    }

    /// Sets `key` to `value`, replacing an earlier value.
    pub fn insert(&mut self, key: String, value: V)
        ensures
            final(self)@ == old(self)@.insert(key@, value@),
    {
        self.entries.push((key, value));
        assert(self.entries@.drop_last() =~= old(self).entries@);
    }

    /// The value of `key`, if it has one.
    pub fn get(&self, key: &str) -> (res: Option<&V>)
        ensures
            res is Some <==> self@.contains_key(key@),
            res matches Some(v) ==> v@ == self@[key@],
    {
        let n = self.entries.len();
        let mut i: usize = n;
        while i > 0
            invariant
                i <= n,
                n == self.entries@.len(),
                forall|j: int| i <= j < n ==> self.entries@[j].0@ != key@,
            decreases i,
        {
            if str_eq(self.entries[i - 1].0.as_str(), key) {
                proof {
                    let e = self.entries@;
                    let t = e.take(i as int);
                    lemma_entries_map_suffix(e, i as int, key@);
                    assert(t.drop_last() =~= e.take(i - 1));
                    assert(t.last() == e[i - 1]);
                }
                return Some(&self.entries[i - 1].1);
            }
            i -= 1;
        }
        proof {
            lemma_entries_map_suffix(self.entries@, 0, key@);
            assert(self.entries@.take(0) =~= Seq::<(String, V)>::empty());
        }
        None
    }
}

/// The declarations of a `style` attribute: each `;`-separated piece that
/// splits at `:` into exactly two parts sets the trimmed first part to the
/// trimmed second part, later pieces winning.
pub open spec fn declarations_map(pieces: Seq<Seq<char>>) -> Map<Seq<char>, Seq<char>>
    decreases pieces.len(),
{
    if pieces.len() == 0 {
        Map::empty()
    } else {
        let m = declarations_map(pieces.drop_last());
        let parts = split_spec(pieces.last(), ':');
        if parts.len() == 2 {
            m.insert(trim_spec(parts[0]), trim_spec(parts[1]))
        } else {
            m
        }
    }
}

pub open spec fn style_map_spec(style: Seq<char>) -> Map<Seq<char>, Seq<char>> {
    declarations_map(split_spec(style, ';'))
}

fn style_map_of_chars(style: &Vec<char>) -> (res: StyleMap<String>)
    ensures
        res@ == style_map_spec(style@),
{
    let pieces = split(style, ';');
    let ghost ps = split_spec(style@, ';');
    let mut m: StyleMap<String> = StyleMap::new();
    let mut i: usize = 0;
    assert(ps.take(0) =~= Seq::<Seq<char>>::empty());
    while i < pieces.len()
        invariant
            i <= pieces@.len(),
            pieces@.len() == ps.len(),
            forall|k: int| 0 <= k < pieces@.len() ==> pieces@[k]@ == ps[k],
            m@ == declarations_map(ps.take(i as int)),
        decreases pieces@.len() - i,
    {
        let parts = split(&pieces[i], ':');
        assert(ps.take(i + 1).drop_last() =~= ps.take(i as int));
        assert(ps.take(i + 1).last() == ps[i as int]);
        if parts.len() == 2 {
            let k = trim(&parts[0]);
            let v = trim(&parts[1]);
            m.insert(string_of(&k), string_of(&v));
        }
        i += 1;
    }
    assert(ps.take(pieces@.len() as int) =~= ps);
    m
}

/// A value set in a style map is what a lookup of its key then gives, and
/// the other keys keep their values.
pub proof fn lemma_style_insert_then_get<V>(m: Map<Seq<char>, V>, key: Seq<char>, value: V, other: Seq<char>)
    requires
        other != key,
    ensures
        m.insert(key, value).contains_key(key),
        m.insert(key, value)[key] == value,
        m.insert(key, value).contains_key(other) == m.contains_key(other),
        m.contains_key(other) ==> m.insert(key, value)[other] == m[other],
{
}

/// Parses a `style` attribute such as `stroke: red; fill: none`.
pub fn parse_svg_style(style: &str) -> (res: StyleMap<String>)
    ensures
        res@ == style_map_spec(style@),
{
    let chars = chars_of(style);
    style_map_of_chars(&chars)
}

/// `s` without its `.` characters.
pub open spec fn remove_dots(s: Seq<char>) -> Seq<char>
    decreases s.len(),
{
    if s.len() == 0 {
        s
    } else if s.last() == '.' {
        remove_dots(s.drop_last())
    } else {
        remove_dots(s.drop_last()).push(s.last())
    }
}

fn without_dots(s: &Vec<char>) -> (res: Vec<char>)
    ensures
        res@ == remove_dots(s@),
{
    let mut res: Vec<char> = Vec::new();
    let mut i: usize = 0;
    assert(s@.take(0) =~= Seq::<char>::empty());
    while i < s.len()
        invariant
            i <= s@.len(),
            res@ == remove_dots(s@.take(i as int)),
        decreases s.len() - i,
    {
        assert(s@.take(i + 1).drop_last() =~= s@.take(i as int));
        if s[i] != '.' {
            res.push(s[i]);
        }
        i += 1;
    }
    assert(s@.take(s.len() as int) =~= s@);
    res
}

/// The rules of a style sheet added to `sheet`: each `}`-separated piece that
/// splits at `{` into exactly two parts maps its trimmed selector, without
/// dots, to the declarations of its trimmed body.
pub open spec fn rules_map(
    sheet: Map<Seq<char>, Map<Seq<char>, Seq<char>>>,
    pieces: Seq<Seq<char>>,
) -> Map<Seq<char>, Map<Seq<char>, Seq<char>>>
    decreases pieces.len(),
{
    if pieces.len() == 0 {
        sheet
    } else {
        let m = rules_map(sheet, pieces.drop_last());
        let parts = split_spec(pieces.last(), '{');
        if parts.len() == 2 {
            m.insert(remove_dots(trim_spec(parts[0])), style_map_spec(trim_spec(parts[1])))
        } else {
            m
        }
    }
}

/// Adds the rules of the text of a `<style>` element, such as
/// `.a { fill: red } .b { stroke: blue }`, to the style sheet.
pub fn add_style_rules(sheet: &mut StyleMap<StyleMap<String>>, style_text: &str)
    ensures
        final(sheet)@ == rules_map(old(sheet)@, split_spec(style_text@, '}')),
{
    let text = chars_of(style_text);
    let rules = split(&text, '}');
    let ghost ps = split_spec(style_text@, '}');
    let mut i: usize = 0;
    assert(ps.take(0) =~= Seq::<Seq<char>>::empty());
    while i < rules.len()
        invariant
            i <= rules@.len(),
            rules@.len() == ps.len(),
            forall|k: int| 0 <= k < rules@.len() ==> rules@[k]@ == ps[k],
            sheet@ == rules_map(old(sheet)@, ps.take(i as int)),
        decreases rules@.len() - i,
    {
        let parts = split(&rules[i], '{');
        assert(ps.take(i + 1).drop_last() =~= ps.take(i as int));
        assert(ps.take(i + 1).last() == ps[i as int]);
        if parts.len() == 2 {
            let selector = without_dots(&trim(&parts[0]));
            let body = trim(&parts[1]);
            let props = style_map_of_chars(&body);
            sheet.insert(string_of(&selector), props);
        }
        i += 1;
    }
    assert(ps.take(rules@.len() as int) =~= ps);
}

/// The stroke color and the fill of an SVG shape element: black and `none`
/// unless its `style` sets `stroke` or `fill`; without a `style`, a `stroke`
/// attribute (read for ellipses only) gives the stroke color.
pub open spec fn element_paint_spec(style: Option<Seq<char>>, stroke_attribute: Option<Seq<char>>) -> (
    Seq<char>,
    Seq<char>,
) {
    match style {
        Some(st) => {
            let m = style_map_spec(st);
            (
                if m.contains_key("stroke"@) {
                    m["stroke"@]
                } else {
                    "#000000"@
                },
                if m.contains_key("fill"@) {
                    m["fill"@]
                } else {
                    "none"@
                },
            )
        },
        None => (
            match stroke_attribute {
                Some(s) => s,
                None => "#000000"@,
            },
            "none"@,
        ),
    }
}

pub fn element_paint(style: Option<&str>, stroke_attribute: Option<&str>) -> (res: (String, String))
    ensures
        (res.0@, res.1@) == element_paint_spec(
            match style {
                Some(s) => Some(s@),
                None => None,
            },
            match stroke_attribute {
                Some(s) => Some(s@),
                None => None,
            },
        ),
{
    let mut color = String::from_str("#000000");
    let mut fill = String::from_str("none");
    match style {
        Some(st) => {
            let m = parse_svg_style(st);
            match m.get("fill") {
                Some(f) => {
                    fill = f.clone();
                },
                None => {},
            }
            match m.get("stroke") {
                Some(c) => {
                    color = c.clone();
                },
                None => {},
            }
        },
        None => match stroke_attribute {
            Some(s) => {
                color = String::from_str(s);
            },
            None => {},
        },
    }
    (color, fill)
}

pub open spec fn starts_with(s: Seq<char>, p: Seq<char>) -> bool {
    p.len() <= s.len() && s.take(p.len() as int) == p
}

pub open spec fn ends_with(s: Seq<char>, p: Seq<char>) -> bool {
    p.len() <= s.len() && s.skip(s.len() - p.len()) == p
}

pub open spec fn contains_double_dash(s: Seq<char>) -> bool {
    exists|i: int| 0 <= i < s.len() - 1 && s[i] == '-' && #[trigger] s[i + 1] == '-'
}

/// `str::trim_start_matches(p)`: `p` removed from the front as often as it starts the text.
pub open spec fn trim_start_matches_spec(s: Seq<char>, p: Seq<char>) -> Seq<char>
    decreases s.len(),
{
    if p.len() > 0 && starts_with(s, p) {
        trim_start_matches_spec(s.skip(p.len() as int), p)
    } else {
        s
    }
}

/// `str::trim_end_matches(c)`: `c` removed from the end as often as it ends the text.
pub open spec fn trim_end_char_spec(s: Seq<char>, c: char) -> Seq<char>
    decreases s.len(),
{
    if s.len() > 0 && s.last() == c {
        trim_end_char_spec(s.drop_last(), c)
    } else {
        s
    }
}

fn starts_with_at(s: &Vec<char>, from: usize, p: &Vec<char>) -> (res: bool)
    requires
        from <= s@.len(),
    ensures
        res == starts_with(s@.skip(from as int), p@),
{
    if p.len() > s.len() - from {
        return false;
    }
    let mut i: usize = 0;
    while i < p.len()
        invariant
            i <= p@.len(),
            from + p@.len() <= s.len(),
            forall|k: int| 0 <= k < i ==> s@[from + k] == p@[k],
        decreases p@.len() - i,
    {
        if s[from + i] != p[i] {
            assert(s@.skip(from as int).take(p@.len() as int)[i as int] != p@[i as int]);
            return false;
        }
        i += 1;
    }
    assert(s@.skip(from as int).take(p@.len() as int) =~= p@);
    true
}

fn has_double_dash(s: &Vec<char>) -> (res: bool)
    ensures
        res == contains_double_dash(s@),
{
    if s.len() < 2 {
        return false;
    }
    let mut i: usize = 0;
    while i < s.len() - 1
        invariant
            s@.len() >= 2,
            i <= s@.len(),
            forall|k: int| 0 <= k < i && k < s@.len() - 1 ==> !(s@[k] == '-' && #[trigger] s@[k + 1] == '-'),
        decreases s@.len() - i,
    {
        if s[i] == '-' && s[i + 1] == '-' {
            return true;
        }
        i += 1;
    }
    false
}

/// The CSS variable and the optional fallback of a `var(--name, fallback)`
/// color; `None` when the text is not of that form (starts with `var(` and
/// holds `--`).
pub open spec fn css_variable_spec(v: Seq<char>) -> Option<(Seq<char>, Option<Seq<char>>)> {
    if starts_with(v, "var("@) && contains_double_dash(v) {
        let content = trim_end_char_spec(trim_start_matches_spec(v, "var("@), ')');
        let parts = split_spec(content, ',');
        Some(
            (
                trim_spec(trim_spec(parts[0])),
                if parts.len() > 1 {
                    Some(trim_spec(parts[1]))
                } else {
                    None
                },
            ),
        )
    } else {
        None
    }
}

pub fn parse_css_variable(var_str: &str) -> (res: Option<(String, Option<String>)>)
    ensures
        match (res, css_variable_spec(var_str@)) {
            (Some((n, f)), Some((sn, sf))) => n@ == sn && match (f, sf) {
                (Some(a), Some(b)) => a@ == b,
                (None, None) => true,
                _ => false,
            },
            (None, None) => true,
            _ => false,
        },
{
    let v = chars_of(var_str);
    let prefix = chars_of("var(");
    if !(starts_with_at(&v, 0, &prefix) && has_double_dash(&v)) {
        assert(v@.skip(0) =~= v@);
        return None;
    }
    assert(v@.skip(0) =~= v@);
    proof {
        reveal_strlit("var(");
    }
    let mut start: usize = 0;
    while starts_with_at(&v, start, &prefix)
        invariant
            start <= v.len(),
            prefix@ == "var("@,
            prefix@.len() == 4,
            trim_start_matches_spec(v@.skip(start as int), prefix@) == trim_start_matches_spec(v@, prefix@),
        decreases v@.len() - start,
    {
        assert(v@.skip(start as int).skip(4) =~= v@.skip(start + 4));
        start = start + 4;
    }
    let mut end: usize = v.len();
    let ghost t = v@.skip(start as int);
    assert(t.take(t.len() as int) =~= t);
    while end > start && v[end - 1] == ')'
        invariant
            start <= end <= v@.len(),
            t == v@.skip(start as int),
            trim_end_char_spec(t.take(end - start), ')') == trim_end_char_spec(t, ')'),
        decreases end,
    {
        assert(t.take(end - start).drop_last() =~= t.take(end - 1 - start));
        end -= 1;
    }
    let mut content: Vec<char> = Vec::new();
    let mut k: usize = start;
    while k < end
        invariant
            start <= k <= end <= v@.len(),
            content@ == v@.subrange(start as int, k as int),
        decreases end - k,
    {
        content.push(v[k]);
        assert(v@.subrange(start as int, k as int).push(v@[k as int]) =~= v@.subrange(start as int, k + 1));
        k += 1;
    }
    proof {
        let r = t.take(end - start);
        assert(content@ =~= r);
        if r.len() > 0 {
            assert(r.last() == v@[end - 1]);
        }
    }
    let parts = split(&content, ',');
    let name = trim(&trim(&parts[0]));
    let fallback = if parts.len() > 1 {
        Some(string_of(&trim(&parts[1])))
    } else {
        None
    };
    Some((string_of(&name), fallback))
}

/// The color of a CSS variable: its computed value when that is not empty,
/// else the fallback.
pub fn resolve_css_value(computed: Option<String>, fallback: Option<String>) -> (res: Option<String>)
    ensures
        match computed {
            Some(c) if c@.len() > 0 => res == Some(c),
            _ => res == fallback,
        },
{
    match computed {
        Some(c) => {
            if c.as_str().is_empty() {
                fallback
            } else {
                Some(c)
            }
        },
        None => fallback,
    }
}

/// Where the fill paint of an element comes from.
#[derive(Debug, Clone, PartialEq, Eq)]
pub enum FillSource {
    /// `url(#id)`: the gradient with this id (`""` when the reference is malformed).
    Gradient { id: String },
    /// `var(...)`: a CSS variable.
    Variable,
    /// A color: the attribute's text, or `black` when the attribute is empty or missing.
    Paint { color: String },
    /// `none` (in any case).
    NoFill,
}

/// The gradient id of a `url(#id)` fill: the text between `url(#` and `)`,
/// or the empty text when it does not have that form.
pub open spec fn gradient_id_spec(fill: Seq<char>) -> Seq<char> {
    if starts_with(fill, "url(#"@) && ends_with(fill.skip(5), ")"@) {
        fill.subrange(5, fill.len() - 1)
    } else {
        Seq::<char>::empty()
    }
}

pub open spec fn fill_source_spec(fill: Seq<char>) -> FillSourceView {
    if starts_with(fill, "url("@) {
        FillSourceView::Gradient { id: gradient_id_spec(fill) }
    } else if starts_with(fill, "var("@) {
        FillSourceView::Variable
    } else if lowercase(fill) != "none"@ {
        if fill.len() == 0 {
            FillSourceView::Paint { color: "black"@ }
        } else {
            FillSourceView::Paint { color: fill }
        }
    } else {
        FillSourceView::NoFill
    }
}

/// `FillSource` with its texts as character sequences.
pub enum FillSourceView {
    Gradient { id: Seq<char> },
    Variable,
    Paint { color: Seq<char> },
    NoFill,
}

impl View for FillSource {
    type V = FillSourceView;

    open spec fn view(&self) -> FillSourceView {
        match self {
            FillSource::Gradient { id } => FillSourceView::Gradient { id: id@ },
            FillSource::Variable => FillSourceView::Variable,
            FillSource::Paint { color } => FillSourceView::Paint { color: color@ },
            FillSource::NoFill => FillSourceView::NoFill,
        }
    }
}

/// Decides the fill of an element from its `fill` attribute (empty when absent).
pub fn fill_source(fill: &str) -> (res: FillSource)
    ensures
        res@ == fill_source_spec(fill@),
{
    let f = chars_of(fill);
    assert(f@.skip(0) =~= f@);
    proof {
        reveal_strlit("url(");
        reveal_strlit("url(#");
        reveal_strlit(")");
        reveal_strlit("var(");
    }
    if starts_with_at(&f, 0, &chars_of("url(")) {
        let id = if f.len() >= 6 && starts_with_at(&f, 0, &chars_of("url(#")) && f[f.len() - 1] == ')' {
            let mut v: Vec<char> = Vec::new();
            let mut i: usize = 5;
            while i < f.len() - 1
                invariant
                    5 <= i <= f@.len() - 1,
                    v@ == f@.subrange(5, i as int),
                decreases f@.len() - i,
            {
                v.push(f[i]);
                assert(f@.subrange(5, i as int).push(f@[i as int]) =~= f@.subrange(5, i + 1));
                i += 1;
            }
            proof {
                let r = f@.skip(5);
                assert(r.skip(r.len() - 1) =~= seq![f@[f@.len() - 1]]);
                assert(")"@ =~= seq![')']);
                assert(ends_with(r, ")"@));
                assert(starts_with(f@, "url(#"@));
            }
            string_of(&v)
        } else {
            proof {
                if starts_with(f@, "url(#"@) && ends_with(f@.skip(5), ")"@) {
                    let r = f@.skip(5);
                    assert(")"@ =~= seq![')']);
                    assert(r.skip(r.len() - 1)[0] == f@[f@.len() - 1]);
                    assert(f@.len() >= 6);
                }
            }
            String::new()
        };
        assert(id@ == gradient_id_spec(f@));
        FillSource::Gradient { id }
    } else if starts_with_at(&f, 0, &chars_of("var(")) {
        FillSource::Variable
    } else {
        let lower = to_lowercase(fill);
        let lv = chars_of(lower.as_str());
        if !same_chars(&lv, "none") {
            if f.len() == 0 {
                FillSource::Paint { color: String::from_str("black") }
            } else {
                FillSource::Paint { color: String::from_str(fill) }
            }
        } else {
            FillSource::NoFill
        }
    }
}

/// Whether a paint is `none`, in any letter case.
pub open spec fn is_none_paint_spec(color: Seq<char>) -> bool {
    lowercase(color) == "none"@
}

/// Whether the color of a `stroke` or `fill` attribute is `none`.
pub fn is_none_paint(color: &str) -> (res: bool)
    ensures
        res == is_none_paint_spec(color@),
        is_ascii_chars(color@) ==> res == (ascii_lowercase(color@) == "none"@),
{
    let lower = to_lowercase(color);
    str_eq(lower.as_str(), "none")
}

/// Whether a stroke color draws anything: it is neither empty nor `none`.
pub fn paints(color: &str) -> (res: bool)
    ensures
        res == (color@.len() > 0 && !is_none_paint_spec(color@)),
{
    let c = chars_of(color);
    if c.len() == 0 {
        return false;
    }
    !is_none_paint(color)
}

/// The canvas text alignment for an SVG `text-anchor`.
pub open spec fn text_align_spec(anchor: Seq<char>) -> Seq<char> {
    if anchor == "middle"@ {
        "center"@
    } else if anchor == "end"@ {
        "right"@
    } else {
        "left"@
    }
}

/// `middle` centers the text, `end` aligns it right, anything else left.
pub fn text_align(anchor: &str) -> (res: &'static str)
    ensures
        res@ == text_align_spec(anchor@),
{
    if str_eq(anchor, "middle") {
        "center"
    } else if str_eq(anchor, "end") {
        "right"
    } else {
        "left"
    }
}

/// `str::split_whitespace`: the non-empty runs of non-whitespace characters.
pub open spec fn words_spec(s: Seq<char>) -> Seq<Seq<char>>
    decreases s.len(),
{
    if s.len() == 0 {
        Seq::<Seq<char>>::empty()
    } else {
        let prev = words_spec(s.drop_last());
        let c = s.last();
        if is_ws(c) {
            prev
        } else if s.len() >= 2 && !is_ws(s[s.len() - 2]) {
            prev.update(prev.len() - 1, prev.last().push(c))
        } else {
            prev.push(seq![c])
        }
    }
}

proof fn lemma_words_last_open(s: Seq<char>)
    requires
        s.len() > 0,
        !is_ws(s.last()),
    ensures
        words_spec(s).len() > 0,
    decreases s.len(),
{
    if s.len() >= 2 && !is_ws(s[s.len() - 2]) {
        let p = s.drop_last();
        assert(p.last() == s[s.len() - 2]);
        lemma_words_last_open(p);
    }
}

/// The words of `s` (see `words_spec`).
pub fn split_whitespace(s: &Vec<char>) -> (res: Vec<Vec<char>>)
    ensures
        res@.len() == words_spec(s@).len(),
        forall|k: int| 0 <= k < res@.len() ==> res@[k]@ == words_spec(s@)[k],
{
    let mut res: Vec<Vec<char>> = Vec::new();
    let mut cur: Vec<char> = Vec::new();
    let mut in_word = false;
    let mut i: usize = 0;
    assert(s@.take(0) =~= Seq::<char>::empty());
    while i < s.len()
        invariant
            i <= s@.len(),
            in_word == (i > 0 && !is_ws(s@[i - 1])),
            in_word ==> res@.len() + 1 == words_spec(s@.take(i as int)).len() && cur@
                == words_spec(s@.take(i as int)).last(),
            !in_word ==> res@.len() == words_spec(s@.take(i as int)).len(),
            forall|k: int| 0 <= k < res@.len() ==> res@[k]@ == words_spec(s@.take(i as int))[k],
        decreases s.len() - i,
    {
        let ghost pre = s@.take(i as int);
        let ghost nxt = s@.take(i + 1);
        assert(nxt.drop_last() =~= pre);
        assert(nxt.last() == s@[i as int]);
        let c = s[i];
        if is_whitespace(c) {
            if in_word {
                let w = cur;
                res.push(w);
                cur = Vec::new();
            }
            in_word = false;
        } else {
            if in_word {
                assert(nxt[nxt.len() - 2] == s@[i - 1]);
                cur.push(c);
            } else {
                assert(i > 0 ==> nxt[nxt.len() - 2] == s@[i - 1]);
                cur = Vec::new();
                cur.push(c);
                assert(cur@ =~= seq![c]);
            }
            in_word = true;
        }
        i += 1;
    }
    assert(s@.take(s.len() as int) =~= s@);
    if in_word {
        res.push(cur);
    }
    res
}

/// The coordinate texts of a `points` attribute: for each whitespace
/// separated entry, its comma separated pieces; `None` when there are fewer
/// than two entries.
pub fn point_pieces(points: &str) -> (res: Option<Vec<Vec<String>>>)
    ensures
        res is None <==> words_spec(points@).len() < 2,
        res matches Some(v) ==> {
            &&& v@.len() == words_spec(points@).len()
            &&& forall|i: int|
                0 <= i < v@.len() ==> {
                    &&& #[trigger] v@[i]@.len() == split_spec(words_spec(points@)[i], ',').len()
                    &&& forall|j: int|
                        0 <= j < v@[i]@.len() ==> #[trigger] v@[i]@[j]@ == split_spec(
                            words_spec(points@)[i],
                            ',',
                        )[j]
                }
        },
{
    let words = split_whitespace(&chars_of(points));
    if words.len() < 2 {
        return None;
    }
    let mut res: Vec<Vec<String>> = Vec::new();
    let mut i: usize = 0;
    while i < words.len()
        invariant
            i <= words@.len(),
            words@.len() == words_spec(points@).len(),
            forall|k: int| 0 <= k < words@.len() ==> words@[k]@ == words_spec(points@)[k],
            res@.len() == i,
            forall|k: int|
                0 <= k < i ==> {
                    &&& #[trigger] res@[k]@.len() == split_spec(words_spec(points@)[k], ',').len()
                    &&& forall|j: int|
                        0 <= j < res@[k]@.len() ==> #[trigger] res@[k]@[j]@ == split_spec(
                            words_spec(points@)[k],
                            ',',
                        )[j]
                },
        decreases words@.len() - i,
    {
        let pieces = split(&words[i], ',');
        let mut strings: Vec<String> = Vec::new();
        let mut j: usize = 0;
        while j < pieces.len()
            invariant
                j <= pieces@.len(),
                strings@.len() == j,
                forall|m: int| 0 <= m < j ==> #[trigger] strings@[m]@ == pieces@[m]@,
            decreases pieces@.len() - j,
        {
            strings.push(string_of(pieces[j].as_slice()));
            j += 1;
        }
        res.push(strings);
        proof {
            assert(res@[i as int]@ == strings@);
        }
        i += 1;
    }
    Some(res)
}

/// The `fill`, `stroke` and `opacity` that the classes of an element set
/// from a style sheet: a later class overrides an earlier one.
pub struct ClassPaint {
    pub fill: Option<String>,
    pub stroke: Option<String>,
    pub opacity: Option<String>,
}

pub open spec fn class_paint_spec(
    sheet: Map<Seq<char>, Map<Seq<char>, Seq<char>>>,
    classes: Seq<Seq<char>>,
    key: Seq<char>,
) -> Option<Seq<char>>
    decreases classes.len(),
{
    if classes.len() == 0 {
        None
    } else {
        let c = classes.last();
        if sheet.contains_key(c) && sheet[c].contains_key(key) {
            Some(sheet[c][key])
        } else {
            class_paint_spec(sheet, classes.drop_last(), key)
        }
    }
}

pub open spec fn opt_view(o: Option<String>) -> Option<Seq<char>> {
    match o {
        Some(s) => Some(s@),
        None => None,
    }
}

/// The paint that the `class` attribute `class_attr` gives from `sheet`.
pub fn class_paint(class_attr: &str, sheet: &StyleMap<StyleMap<String>>) -> (res: ClassPaint)
    ensures
        opt_view(res.fill) == class_paint_spec(sheet@, words_spec(class_attr@), "fill"@),
        opt_view(res.stroke) == class_paint_spec(sheet@, words_spec(class_attr@), "stroke"@),
        opt_view(res.opacity) == class_paint_spec(sheet@, words_spec(class_attr@), "opacity"@),
{
    let a = chars_of(class_attr);
    let classes = split_whitespace(&a);
    let ghost ws = words_spec(class_attr@);
    let mut fill: Option<String> = None;
    let mut stroke: Option<String> = None;
    let mut opacity: Option<String> = None;
    let mut i: usize = 0;
    assert(ws.take(0) =~= Seq::<Seq<char>>::empty());
    while i < classes.len()
        invariant
            i <= classes@.len(),
            classes@.len() == ws.len(),
            forall|k: int| 0 <= k < classes@.len() ==> classes@[k]@ == ws[k],
            opt_view(fill) == class_paint_spec(sheet@, ws.take(i as int), "fill"@),
            opt_view(stroke) == class_paint_spec(sheet@, ws.take(i as int), "stroke"@),
            opt_view(opacity) == class_paint_spec(sheet@, ws.take(i as int), "opacity"@),
        decreases classes@.len() - i,
    {
        let name = string_of(&classes[i]);
        assert(ws.take(i + 1).drop_last() =~= ws.take(i as int));
        assert(ws.take(i + 1).last() == ws[i as int]);
        match sheet.get(name.as_str()) {
            Some(styles) => {
                match styles.get("fill") {
                    Some(f) => {
                        fill = Some(f.clone());
                    },
                    None => {},
                }
                match styles.get("stroke") {
                    Some(st) => {
                        stroke = Some(st.clone());
                    },
                    None => {},
                }
                match styles.get("opacity") {
                    Some(o) => {
                        opacity = Some(o.clone());
                    },
                    None => {},
                }
            },
            None => {},
        }
        i += 1;
    }
    assert(ws.take(classes@.len() as int) =~= ws);
    ClassPaint { fill, stroke, opacity }
}

} // verus!
