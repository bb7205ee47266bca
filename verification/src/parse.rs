//! Colours as text: names, and the notation `rgb(r, g, b)` with an optional
//! fourth part for alpha. The hue notation `hsl(..)` is taken apart here and
//! left to be converted where fractions can be computed with.

use vstd::prelude::*;
use crate::paint::{Color, BLACK, BLUE, GRAY, GREEN, RED, TRANSPARENT, WHITE, YELLOW};

verus! {

/// The text was no colour.
#[derive(Debug, PartialEq, Eq)]
pub struct ParseColorError;

/// Values that can be read from text.
pub trait Parse: Sized {
    type Err;

    fn parse(value: &str) -> Result<Self, Self::Err>;
}

/// The characters of a text.
pub fn chars_of(text: &str) -> (chars: Vec<char>)
    ensures
        chars@ == text@,
{
    let count = text.unicode_len();
    let mut chars: Vec<char> = Vec::with_capacity(count);
    let mut i: usize = 0;
    while i < count
        invariant
            i <= count,
            count == text@.len(),
            chars@ == text@.subrange(0, i as int),
        decreases count - i,
    {
        chars.push(text.get_char(i));
        assert(chars@ =~= text@.subrange(0, i + 1));
        i = i + 1;
    }
    assert(chars@ =~= text@);
    chars
}

/// Whether a character is white space.
pub open spec fn is_space(c: char) -> bool {
    let v = c as u32;
    ||| 0x09 <= v <= 0x0d
    ||| v == 0x20
    ||| v == 0x85
    ||| v == 0xa0
    ||| v == 0x1680
    ||| 0x2000 <= v <= 0x200a
    ||| v == 0x2028
    ||| v == 0x2029
    ||| v == 0x202f
    ||| v == 0x205f
    ||| v == 0x3000
}

fn space(c: char) -> (b: bool)
    ensures
        b == is_space(c),
{
    let v: u32 = c as u32;
    (0x09 <= v && v <= 0x0d) || v == 0x20 || v == 0x85 || v == 0xa0 || v == 0x1680 || (0x2000 <= v
        && v <= 0x200a) || v == 0x2028 || v == 0x2029 || v == 0x202f || v == 0x205f || v == 0x3000
}

/// The first index from `i` on that holds no white space.
pub open spec fn trim_start(s: Seq<char>, i: int) -> int
    decreases s.len() - i,
{
    if 0 <= i < s.len() && is_space(s[i]) {
        trim_start(s, i + 1)
    } else {
        i
    }
}

/// The end of the text before `n` without the white space that it ends in,
/// but not before `from`.
pub open spec fn trim_end(s: Seq<char>, from: int, n: int) -> int
    decreases n,
{
    if 0 <= from < n <= s.len() && is_space(s[n - 1]) {
        trim_end(s, from, n - 1)
    } else {
        n
    }
}

/// The text without the white space around it.
pub open spec fn spec_trim(s: Seq<char>) -> Seq<char> {
    let start = trim_start(s, 0);
    s.subrange(start, trim_end(s, start, s.len() as int))
}

proof fn lemma_trim_start_bounds(s: Seq<char>, i: int)
    requires
        0 <= i <= s.len(),
    ensures
        i <= trim_start(s, i) <= s.len(),
    decreases s.len() - i,
{
    if i < s.len() && is_space(s[i]) {
        lemma_trim_start_bounds(s, i + 1);
    }
}

proof fn lemma_trim_end_bounds(s: Seq<char>, i: int, n: int)
    requires
        0 <= i <= n <= s.len(),
    ensures
        i <= trim_end(s, i, n) <= n,
    decreases n,
{
    if i < n && is_space(s[n - 1]) {
        lemma_trim_end_bounds(s, i, n - 1);
    }
}

/// Computes [`spec_trim`].
pub fn trim(s: &Vec<char>) -> (out: Vec<char>)
    ensures
        out@ == spec_trim(s@),
{
    let mut start: usize = 0;
    while start < s.len() && space(s[start])
        invariant
            start <= s.len(),
            trim_start(s@, 0) == trim_start(s@, start as int),
        decreases s.len() - start,
    {
        start = start + 1;
    }
    let mut end: usize = s.len();
    while start < end && space(s[end - 1])
        invariant
            start <= end <= s.len(),
            trim_end(s@, start as int, s.len() as int) == trim_end(s@, start as int, end as int),
        decreases end,
    {
        end = end - 1;
    }
    let mut out: Vec<char> = Vec::with_capacity(end - start);
    let mut i: usize = start;
    while i < end
        invariant
            start <= i <= end <= s.len(),
            out@ == s@.subrange(start as int, i as int),
        decreases end - i,
    {
        out.push(s[i]);
        assert(out@ =~= s@.subrange(start as int, i + 1));
        i = i + 1;
    }
    out
}

/// Whether a character is one of the ten digits.
pub open spec fn is_digit(c: char) -> bool {
    0x30 <= c as u32 <= 0x39
}

/// The number that the first `n` characters spell, if all are digits.
pub open spec fn decimal(s: Seq<char>, n: int) -> int
    decreases n,
{
    if n <= 0 {
        0
    } else {
        decimal(s, n - 1) * 10 + (s[n - 1] as u32 - 0x30)
    }
}

/// Whether all of the first `n` characters are digits.
pub open spec fn all_digits(s: Seq<char>, n: int) -> bool
    decreases n,
{
    n <= 0 || (all_digits(s, n - 1) && is_digit(s[n - 1]))
}

/// The byte that a text spells: digits, at least one, after an optional
/// plus sign, that spell a number up to 255.
pub open spec fn spec_parse_u8(s: Seq<char>) -> Option<u8> {
    let digits = if s.len() > 0 && s[0] == '+' {
        s.subrange(1, s.len() as int)
    } else {
        s
    };
    if digits.len() > 0 && all_digits(digits, digits.len() as int) && decimal(
        digits,
        digits.len() as int,
    ) <= 255 {
        Some(decimal(digits, digits.len() as int) as u8)
    } else {
        None
    }
}

proof fn lemma_decimal_grows(s: Seq<char>, i: int, n: int)
    requires
        0 <= i <= n <= s.len(),
        all_digits(s, n),
    ensures
        all_digits(s, i),
        0 <= decimal(s, i) <= decimal(s, n),
    decreases n,
{
    if i < n {
        lemma_decimal_grows(s, i, n - 1);
    } else if n > 0 {
        lemma_decimal_grows(s, n - 1, n - 1);
    }
}

proof fn lemma_not_all_digits(s: Seq<char>, i: int, n: int)
    requires
        0 < i <= n <= s.len(),
        !is_digit(s[i - 1]),
    ensures
        !all_digits(s, n),
    decreases n - i,
{
    if i < n {
        lemma_not_all_digits(s, i, n - 1);
    }
}

/// Computes [`spec_parse_u8`].
pub fn parse_u8(s: &Vec<char>) -> (value: Option<u8>)
    ensures
        value == spec_parse_u8(s@),
{
    let first: usize = if s.len() > 0 && s[0] == '+' {
        1
    } else {
        0
    };
    let ghost digits = s@.subrange(first as int, s.len() as int);
    if first == s.len() {
        return None;
    }
    if first == 0 {
        assert(digits =~= s@);
    }
    let mut total: u32 = 0;
    let mut i: usize = first;
    while i < s.len()
        invariant
            first <= i <= s.len(),
            first < s.len(),
            first == if s@.len() > 0 && s@[0] == '+' {
                1int
            } else {
                0int
            },
            digits == s@.subrange(first as int, s.len() as int),
            first == 0 ==> digits == s@,
            all_digits(digits, i - first),
            total == decimal(digits, i - first),
            total <= 255,
        decreases s.len() - i,
    {
        let c: char = s[i];
        let v: u32 = c as u32;
        assert(digits[i - first] == c);
        if v < 0x30 || v > 0x39 {
            proof {
                assert(!is_digit(digits[i - first]));
                lemma_not_all_digits(digits, i - first + 1, digits.len() as int);
            }
            return None;
        }
        assert(is_digit(digits[i - first]));
        assert(all_digits(digits, i - first + 1));
        let next: u32 = total * 10 + (v - 0x30);
        assert(next == decimal(digits, i - first + 1));
        if next > 255 {
            proof {
                if all_digits(digits, digits.len() as int) {
                    lemma_decimal_grows(digits, i - first + 1, digits.len() as int);
                }
            }
            return None;
        }
        total = next;
        i = i + 1;
    }
    Some(total as u8)
}

/// Whether `pattern` stands in `s` at index `i`.
pub open spec fn matches_at(s: Seq<char>, pattern: Seq<char>, i: int) -> bool {
    0 <= i && i + pattern.len() <= s.len() && s.subrange(i, i + pattern.len()) == pattern
}

/// The first index from `i` on at which `pattern` stands in `s`; the length
/// of `s` if there is none.
pub open spec fn find_from(s: Seq<char>, pattern: Seq<char>, i: int) -> int
    decreases s.len() - i,
{
    if i < 0 || i + pattern.len() > s.len() {
        s.len() as int
    } else if matches_at(s, pattern, i) {
        i
    } else if i < s.len() {
        find_from(s, pattern, i + 1)
    } else {
        s.len() as int
    }
}

/// The text without the first occurrence of `pattern`.
pub open spec fn spec_remove_first(s: Seq<char>, pattern: Seq<char>) -> Seq<char> {
    let at = find_from(s, pattern, 0);
    if at + pattern.len() <= s.len() {
        s.subrange(0, at) + s.subrange(at + pattern.len(), s.len() as int)
    } else {
        s
    }
}

/// Whether the text begins with `pattern`.
pub open spec fn spec_starts_with(s: Seq<char>, pattern: Seq<char>) -> bool {
    matches_at(s, pattern, 0)
}

/// Whether the text ends with `pattern`.
pub open spec fn spec_ends_with(s: Seq<char>, pattern: Seq<char>) -> bool {
    matches_at(s, pattern, s.len() - pattern.len())
}

/// Computes [`matches_at`].
pub fn stands_at(s: &Vec<char>, pattern: &Vec<char>, i: usize) -> (found: bool)
    ensures
        found == matches_at(s@, pattern@, i as int),
{
    if pattern.len() > s.len() || i > s.len() - pattern.len() {
        return false;
    }
    let mut k: usize = 0;
    while k < pattern.len()
        invariant
            k <= pattern.len(),
            i + pattern.len() <= s.len(),
            s@.subrange(i as int, i + k) == pattern@.subrange(0, k as int),
        decreases pattern.len() - k,
    {
        if s[i + k] != pattern[k] {
            proof {
                if s@.subrange(i as int, i + pattern.len()) == pattern@ {
                    let found = s@.subrange(i as int, i + pattern.len());
                    assert(found[k as int] == pattern@[k as int]);
                }
            }
            return false;
        }
        assert(s@.subrange(i as int, i + k + 1) =~= pattern@.subrange(0, k + 1));
        k = k + 1;
    }
    assert(pattern@.subrange(0, pattern.len() as int) =~= pattern@);
    true
}

/// Computes [`spec_remove_first`].
pub fn remove_first(s: &Vec<char>, pattern: &Vec<char>) -> (out: Vec<char>)
    ensures
        out@ == spec_remove_first(s@, pattern@),
{
    let mut at: usize = 0;
    let mut found: bool = false;
    while !found && pattern.len() <= s.len() && at <= s.len() - pattern.len()
        invariant
            at <= s.len(),
            find_from(s@, pattern@, 0) == find_from(s@, pattern@, at as int),
            found ==> matches_at(s@, pattern@, at as int),
        decreases s.len() - at + if found { 0int } else { 1int },
    {
        proof {
            if pattern.len() == 0 {
                assert(s@.subrange(at as int, at as int) =~= pattern@);
            }
        }
        if stands_at(s, pattern, at) {
            found = true;
        } else {
            at = at + 1;
        }
    }
    let mut out: Vec<char> = Vec::with_capacity(s.len());
    let mut i: usize = 0;
    if found {
        while i < at
            invariant
                i <= at <= s.len(),
                out@ == s@.subrange(0, i as int),
            decreases at - i,
        {
            out.push(s[i]);
            assert(out@ =~= s@.subrange(0, i + 1));
            i = i + 1;
        }
        i = at + pattern.len();
        let ghost head = out@;
        while i < s.len()
            invariant
                at + pattern.len() <= i <= s.len(),
                out@ == head + s@.subrange(at + pattern.len(), i as int),
            decreases s.len() - i,
        {
            out.push(s[i]);
            assert(out@ =~= head + s@.subrange(at + pattern.len(), i + 1));
            i = i + 1;
        }
    } else {
        while i < s.len()
            invariant
                i <= s.len(),
                out@ == s@.subrange(0, i as int),
            decreases s.len() - i,
        {
            out.push(s[i]);
            assert(out@ =~= s@.subrange(0, i + 1));
            i = i + 1;
        }
        assert(out@ =~= s@);
    }
    out
}

/// The pieces of the first `n` characters between the separators.
pub open spec fn split_upto(s: Seq<char>, separator: char, n: int) -> Seq<Seq<char>>
    decreases n,
{
    if n <= 0 {
        seq![Seq::empty()]
    } else {
        let before = split_upto(s, separator, n - 1);
        if s[n - 1] == separator {
            before.push(Seq::empty())
        } else {
            before.update(before.len() - 1, before.last().push(s[n - 1]))
        }
    }
}

/// The pieces of a text between the separators: one more than there are
/// separators.
pub open spec fn spec_split(s: Seq<char>, separator: char) -> Seq<Seq<char>> {
    split_upto(s, separator, s.len() as int)
}

proof fn lemma_split_nonempty(s: Seq<char>, separator: char, n: int)
    ensures
        split_upto(s, separator, n).len() >= 1,
    decreases n,
{
    if n > 0 {
        lemma_split_nonempty(s, separator, n - 1);
    }
}

/// The views of the pieces.
pub open spec fn pieces_view(pieces: Seq<Vec<char>>) -> Seq<Seq<char>> {
    Seq::new(pieces.len(), |i: int| pieces[i]@)
}

/// Computes [`spec_split`].
pub fn split(s: &Vec<char>, separator: char) -> (pieces: Vec<Vec<char>>)
    ensures
        pieces_view(pieces@) == spec_split(s@, separator),
        pieces.len() >= 1,
{
    let mut pieces: Vec<Vec<char>> = Vec::new();
    let mut current: Vec<char> = Vec::new();
    let mut i: usize = 0;
    while i < s.len()
        invariant
            i <= s.len(),
            pieces_view(pieces@).push(current@) == split_upto(s@, separator, i as int),
        decreases s.len() - i,
    {
        let ghost before = split_upto(s@, separator, i as int);
        let ghost done = pieces_view(pieces@);
        if s[i] == separator {
            pieces.push(current);
            current = Vec::new();
            assert(pieces_view(pieces@) =~= before);
        } else {
            current.push(s[i]);
            assert(done.push(current@) =~= before.update(
                before.len() - 1,
                before.last().push(s@[i as int]),
            ));
        }
        i = i + 1;
    }
    let ghost done = pieces_view(pieces@);
    pieces.push(current);
    assert(pieces_view(pieces@) =~= done.push(current@));
    pieces
}

/// Whether two texts are the same.
pub fn same(a: &Vec<char>, b: &Vec<char>) -> (equal: bool)
    ensures
        equal == (a@ == b@),
{
    if a.len() != b.len() {
        return false;
    }
    let mut i: usize = 0;
    while i < a.len()
        invariant
            i <= a.len(),
            a.len() == b.len(),
            a@.subrange(0, i as int) == b@.subrange(0, i as int),
        decreases a.len() - i,
    {
        if a[i] != b[i] {
            return false;
        }
        assert(a@.subrange(0, i + 1) =~= b@.subrange(0, i + 1));
        i = i + 1;
    }
    assert(a@ =~= a@.subrange(0, a.len() as int));
    assert(b@ =~= b@.subrange(0, b.len() as int));
    true
}

/// The first `n` characters of a text without the character `c`.
pub open spec fn without_upto(s: Seq<char>, c: char, n: int) -> Seq<char>
    decreases n,
{
    if n <= 0 {
        Seq::empty()
    } else if s[n - 1] == c {
        without_upto(s, c, n - 1)
    } else {
        without_upto(s, c, n - 1).push(s[n - 1])
    }
}

/// The text without any occurrence of the character `c`.
pub open spec fn spec_without(s: Seq<char>, c: char) -> Seq<char> {
    without_upto(s, c, s.len() as int)
}

/// Computes [`spec_without`].
pub fn without(s: &Vec<char>, c: char) -> (out: Vec<char>)
    ensures
        out@ == spec_without(s@, c),
{
    let mut out: Vec<char> = Vec::with_capacity(s.len());
    let mut i: usize = 0;
    while i < s.len()
        invariant
            i <= s.len(),
            out@ == without_upto(s@, c, i as int),
        decreases s.len() - i,
    {
        if s[i] != c {
            out.push(s[i]);
        }
        i = i + 1;
    }
    out
}

/// Whether the text ends in the character `c`.
pub open spec fn ends_in(s: Seq<char>, c: char) -> bool {
    s.len() > 0 && s.last() == c
}

/// A colour of three or four parts, each a byte: red, green, blue, and
/// alpha if there is a fourth.
pub open spec fn color_of_parts(parts: Seq<Seq<char>>) -> Option<Color> {
    if parts.len() < 3 || parts.len() > 4 {
        None
    } else {
        match (
            spec_parse_u8(spec_trim(parts[0])),
            spec_parse_u8(spec_trim(parts[1])),
            spec_parse_u8(spec_trim(parts[2])),
        ) {
            (Some(r), Some(g), Some(b)) => if parts.len() == 4 {
                match spec_parse_u8(spec_trim(parts[3])) {
                    Some(a) => Some(Color::spec_from_argb(a, r, g, b)),
                    None => None,
                }
            } else {
                Some(Color::spec_from_argb(0xff, r, g, b))
            },
            _ => None,
        }
    }
}

/// What stands between the brackets of a colour in the notation `name`: the
/// text without the first occurrence of the name with its opening bracket
/// and without the first closing bracket, cut at the commas.
pub open spec fn bracketed_parts(s: Seq<char>, open: Seq<char>) -> Seq<Seq<char>> {
    spec_split(spec_remove_first(spec_remove_first(s, open), seq![')']), ',')
}

/// The colour that a text in the notation `rgb(r, g, b)` or
/// `rgb(r, g, b, a)` spells, if it spells one.
pub open spec fn spec_parse_rgb(s: Seq<char>) -> Option<Color> {
    if !ends_in(s, ')') {
        None
    } else {
        color_of_parts(bracketed_parts(s, seq!['r', 'g', 'b', '(']))
    }
}

fn bracketed(s: &Vec<char>, open: &Vec<char>) -> (parts: Vec<Vec<char>>)
    ensures
        pieces_view(parts@) == bracketed_parts(s@, open@),
        parts.len() >= 1,
{
    let mut close: Vec<char> = Vec::new();
    close.push(')');
    assert(close@ =~= seq![')']);
    let opened = remove_first(s, open);
    let inner = remove_first(&opened, &close);
    split(&inner, ',')
}

fn byte_of(part: &Vec<char>) -> (value: Option<u8>)
    ensures
        value == spec_parse_u8(spec_trim(part@)),
{
    let trimmed = trim(part);
    parse_u8(&trimmed)
}

/// Reads a colour in the notation `rgb(r, g, b)` or `rgb(r, g, b, a)` from
/// its characters.
pub fn parse_rgb_chars(s: &Vec<char>) -> (color: Result<Color, ParseColorError>)
    ensures
        color == match spec_parse_rgb(s@) {
            Some(c) => Ok::<Color, ParseColorError>(c),
            None => Err::<Color, ParseColorError>(ParseColorError),
        },
{
    if s.len() == 0 || s[s.len() - 1] != ')' {
        return Err(ParseColorError);
    }
    let mut open: Vec<char> = Vec::new();
    open.push('r');
    open.push('g');
    open.push('b');
    open.push('(');
    assert(open@ =~= seq!['r', 'g', 'b', '(']);
    let parts = bracketed(s, &open);
    let ghost texts = pieces_view(parts@);
    if parts.len() < 3 || parts.len() > 4 {
        return Err(ParseColorError);
    }
    assert(texts[0] == parts[0]@ && texts[1] == parts[1]@ && texts[2] == parts[2]@);
    let r = match byte_of(&parts[0]) {
        Some(v) => v,
        None => {
            return Err(ParseColorError);
        },
    };
    let g = match byte_of(&parts[1]) {
        Some(v) => v,
        None => {
            return Err(ParseColorError);
        },
    };
    let b = match byte_of(&parts[2]) {
        Some(v) => v,
        None => {
            return Err(ParseColorError);
        },
    };
    if parts.len() == 4 {
        assert(texts[3] == parts[3]@);
        match byte_of(&parts[3]) {
            Some(a) => Ok(Color::from_argb(a, r, g, b)),
            None => Err(ParseColorError),
        }
    } else {
        Ok(Color::from_rgb(r, g, b))
    }
}

/// Reads a colour in the notation `rgb(r, g, b)` or `rgb(r, g, b, a)`.
pub fn parse_rgb(color: &str) -> (parsed: Result<Color, ParseColorError>)
    ensures
        parsed == match spec_parse_rgb(color@) {
            Some(c) => Ok::<Color, ParseColorError>(c),
            None => Err::<Color, ParseColorError>(ParseColorError),
        },
{
    let chars = chars_of(color);
    parse_rgb_chars(&chars)
}

/// The parts of a colour in hue notation, as they were written: the hue
/// without its unit, saturation and lightness without their percent signs,
/// and alpha, if there is one, without any.
pub struct HslParts {
    pub hue: Vec<char>,
    pub saturation: Vec<char>,
    pub lightness: Vec<char>,
    pub alpha: Option<Vec<char>>,
}

/// The parts of a colour in hue notation as texts.
pub struct HslText {
    pub hue: Seq<char>,
    pub saturation: Seq<char>,
    pub lightness: Seq<char>,
    pub alpha: Option<Seq<char>>,
}

impl View for HslParts {
    type V = HslText;

    open spec fn view(&self) -> HslText {
        HslText {
            hue: self.hue@,
            saturation: self.saturation@,
            lightness: self.lightness@,
            alpha: match self.alpha {
                Some(a) => Some(a@),
                None => None,
            },
        }
    }
}

/// The parts of a text in the notation `hsl(h, s, l)` or `hsl(h, s, l, a)`:
/// the hue ends in `deg`, saturation and lightness end in a percent sign.
pub open spec fn spec_parse_hsl(s: Seq<char>) -> Option<HslText> {
    let parts = bracketed_parts(s, seq!['h', 's', 'l', '(']);
    if !ends_in(s, ')') || parts.len() < 3 || parts.len() > 4 {
        None
    } else {
        let hue = spec_trim(parts[0]);
        let saturation = spec_trim(parts[1]);
        let lightness = spec_trim(parts[2]);
        if !spec_ends_with(hue, seq!['d', 'e', 'g']) || !ends_in(saturation, '%') || !ends_in(
            lightness,
            '%',
        ) {
            None
        } else {
            Some(
                HslText {
                    hue: spec_remove_first(hue, seq!['d', 'e', 'g']),
                    saturation: spec_remove_first(saturation, seq!['%']),
                    lightness: spec_remove_first(lightness, seq!['%']),
                    alpha: if parts.len() == 4 {
                        Some(spec_without(spec_trim(parts[3]), '%'))
                    } else {
                        None
                    },
                },
            )
        }
    }
}

fn closes(s: &Vec<char>, c: char) -> (b: bool)
    ensures
        b == ends_in(s@, c),
{
    s.len() > 0 && s[s.len() - 1] == c
}

/// Takes a colour in hue notation apart, from its characters.
pub fn parse_hsl_chars(s: &Vec<char>) -> (parts: Result<HslParts, ParseColorError>)
    ensures
        match spec_parse_hsl(s@) {
            Some(text) => parts matches Ok(found) && found@ == text,
            None => parts is Err,
        },
{
    if !closes(s, ')') {
        return Err(ParseColorError);
    }
    let mut open: Vec<char> = Vec::new();
    open.push('h');
    open.push('s');
    open.push('l');
    open.push('(');
    assert(open@ =~= seq!['h', 's', 'l', '(']);
    let mut degrees: Vec<char> = Vec::new();
    degrees.push('d');
    degrees.push('e');
    degrees.push('g');
    assert(degrees@ =~= seq!['d', 'e', 'g']);
    let mut percent: Vec<char> = Vec::new();
    percent.push('%');
    assert(percent@ =~= seq!['%']);
    let pieces = bracketed(s, &open);
    let ghost texts = pieces_view(pieces@);
    if pieces.len() < 3 || pieces.len() > 4 {
        return Err(ParseColorError);
    }
    assert(texts[0] == pieces[0]@ && texts[1] == pieces[1]@ && texts[2] == pieces[2]@);
    let hue = trim(&pieces[0]);
    let saturation = trim(&pieces[1]);
    let lightness = trim(&pieces[2]);
    let in_degrees = hue.len() >= 3 && stands_at(&hue, &degrees, hue.len() - 3);
    if !in_degrees || !closes(&saturation, '%') || !closes(&lightness, '%') {
        return Err(ParseColorError);
    }
    let alpha = if pieces.len() == 4 {
        assert(texts[3] == pieces[3]@);
        let trimmed = trim(&pieces[3]);
        Some(without(&trimmed, '%'))
    } else {
        None
    };
    Ok(
        HslParts {
            hue: remove_first(&hue, &degrees),
            saturation: remove_first(&saturation, &percent),
            lightness: remove_first(&lightness, &percent),
            alpha,
        },
    )
}

/// Takes a colour in hue notation apart.
pub fn parse_hsl(color: &str) -> (parts: Result<HslParts, ParseColorError>)
    ensures
        match spec_parse_hsl(color@) {
            Some(text) => parts matches Ok(found) && found@ == text,
            None => parts is Err,
        },
{
    let chars = chars_of(color);
    parse_hsl_chars(&chars)
}

/// The colour that a name stands for.
pub open spec fn spec_named(s: Seq<char>) -> Option<Color> {
    if s == seq!['r', 'e', 'd'] {
        Some(Color(RED))
    } else if s == seq!['g', 'r', 'e', 'e', 'n'] {
        Some(Color(GREEN))
    } else if s == seq!['b', 'l', 'u', 'e'] {
        Some(Color(BLUE))
    } else if s == seq!['y', 'e', 'l', 'l', 'o', 'w'] {
        Some(Color(YELLOW))
    } else if s == seq!['b', 'l', 'a', 'c', 'k'] {
        Some(Color(BLACK))
    } else if s == seq!['g', 'r', 'a', 'y'] {
        Some(Color(GRAY))
    } else if s == seq!['w', 'h', 'i', 't', 'e'] {
        Some(Color(WHITE))
    } else if s == seq!['o', 'r', 'a', 'n', 'g', 'e'] {
        Some(Color(ORANGE))
    } else if s == seq!['t', 'r', 'a', 'n', 's', 'p', 'a', 'r', 'e', 'n', 't'] {
        Some(Color(TRANSPARENT))
    } else {
        None
    }
}

/// The value of the colour named orange.
pub const ORANGE: u32 = 0xFFFF_A500;

/// The colour that a name stands for.
pub fn named(s: &Vec<char>) -> (color: Option<Color>)
    ensures
        color == spec_named(s@),
{
    if same(s, &vec!['r', 'e', 'd']) {
        Some(Color(RED))
    } else if same(s, &vec!['g', 'r', 'e', 'e', 'n']) {
        Some(Color(GREEN))
    } else if same(s, &vec!['b', 'l', 'u', 'e']) {
        Some(Color(BLUE))
    } else if same(s, &vec!['y', 'e', 'l', 'l', 'o', 'w']) {
        Some(Color(YELLOW))
    } else if same(s, &vec!['b', 'l', 'a', 'c', 'k']) {
        Some(Color(BLACK))
    } else if same(s, &vec!['g', 'r', 'a', 'y']) {
        Some(Color(GRAY))
    } else if same(s, &vec!['w', 'h', 'i', 't', 'e']) {
        Some(Color(WHITE))
    } else if same(s, &vec!['o', 'r', 'a', 'n', 'g', 'e']) {
        Some(Color(ORANGE))
    } else if same(s, &vec!['t', 'r', 'a', 'n', 's', 'p', 'a', 'r', 'e', 'n', 't']) {
        Some(Color(TRANSPARENT))
    } else {
        None
    }
}

/// A colour that was read, or the parts of one in hue notation, which are
/// still to be converted.
pub enum Parsed {
    Color(Color),
    Hsl(HslParts),
}

/// What was read, as text.
pub enum ParsedText {
    Color(Color),
    Hsl(HslText),
}

impl View for Parsed {
    type V = ParsedText;

    open spec fn view(&self) -> ParsedText {
        match self {
            Parsed::Color(c) => ParsedText::Color(*c),
            Parsed::Hsl(parts) => ParsedText::Hsl(parts@),
        }
    }
}

/// What a text spells: the colour of a name; else, where it begins with
/// `hsl(`, the parts of a colour in hue notation; else, where it begins
/// with `rgb(`, a colour of bytes; else nothing.
pub open spec fn spec_parse(s: Seq<char>) -> Option<ParsedText> {
    match spec_named(s) {
        Some(c) => Some(ParsedText::Color(c)),
        None => if spec_starts_with(s, seq!['h', 's', 'l', '(']) {
            match spec_parse_hsl(s) {
                Some(parts) => Some(ParsedText::Hsl(parts)),
                None => None,
            }
        } else if spec_starts_with(s, seq!['r', 'g', 'b', '(']) {
            match spec_parse_rgb(s) {
                Some(c) => Some(ParsedText::Color(c)),
                None => None,
            }
        } else {
            None
        },
    }
}

impl Parse for Parsed {
    type Err = ParseColorError;

    fn parse(value: &str) -> (parsed: Result<Parsed, ParseColorError>)
        ensures
            match spec_parse(value@) {
                Some(text) => parsed matches Ok(found) && found@ == text,
                None => parsed is Err,
            },
    {
        let chars = chars_of(value);
        match named(&chars) {
            Some(c) => Ok(Parsed::Color(c)),
            None => {
                let hsl: Vec<char> = vec!['h', 's', 'l', '('];
                let rgb: Vec<char> = vec!['r', 'g', 'b', '('];
                assert(hsl@ =~= seq!['h', 's', 'l', '(']);
                assert(rgb@ =~= seq!['r', 'g', 'b', '(']);
                if stands_at(&chars, &hsl, 0) {
                    match parse_hsl_chars(&chars) {
                        Ok(parts) => Ok(Parsed::Hsl(parts)),
                        Err(e) => Err(e),
                    }
                } else if stands_at(&chars, &rgb, 0) {
                    match parse_rgb_chars(&chars) {
                        Ok(c) => Ok(Parsed::Color(c)),
                        Err(e) => Err(e),
                    }
                } else {
                    Err(ParseColorError)
                }
            },
        }
    }
}

/// The character of a digit.
pub open spec fn digit_char(d: int) -> char {
    if d == 0 {
        '0'
    } else if d == 1 {
        '1'
    } else if d == 2 {
        '2'
    } else if d == 3 {
        '3'
    } else if d == 4 {
        '4'
    } else if d == 5 {
        '5'
    } else if d == 6 {
        '6'
    } else if d == 7 {
        '7'
    } else if d == 8 {
        '8'
    } else {
        '9'
    }
}

/// A number in decimal digits.
pub open spec fn decimal_text(n: nat) -> Seq<char>
    decreases n,
{
    if n < 10 {
        seq![digit_char(n as int)]
    } else {
        decimal_text(n / 10).push(digit_char((n % 10) as int))
    }
}

/// A colour in the notation `rgb(r, g, b, a)`.
pub open spec fn spec_fmt_rgb(color: Color) -> Seq<char> {
    seq!['r', 'g', 'b', '('] + decimal_text(color.spec_r() as nat) + seq![',', ' ']
        + decimal_text(color.spec_g() as nat) + seq![',', ' '] + decimal_text(
        color.spec_b() as nat,
    ) + seq![',', ' '] + decimal_text(color.spec_a() as nat) + seq![')']
}

fn push_digit(text: &mut Vec<char>, d: u8)
    requires
        d < 10,
    ensures
        final(text)@ == old(text)@.push(digit_char(d as int)),
{
    let c: char = if d == 0 {
        '0'
    } else if d == 1 {
        '1'
    } else if d == 2 {
        '2'
    } else if d == 3 {
        '3'
    } else if d == 4 {
        '4'
    } else if d == 5 {
        '5'
    } else if d == 6 {
        '6'
    } else if d == 7 {
        '7'
    } else if d == 8 {
        '8'
    } else {
        '9'
    };
    text.push(c);
}

fn push_byte(text: &mut Vec<char>, n: u8)
    ensures
        final(text)@ == old(text)@ + decimal_text(n as nat),
{
    if n >= 100 {
        push_digit(text, n / 100);
        push_digit(text, (n / 10) % 10);
        push_digit(text, n % 10);
        proof {
            assert(decimal_text((n / 100) as nat) =~= seq![digit_char((n / 100) as int)]);
            assert(decimal_text((n / 10) as nat) =~= decimal_text((n / 100) as nat).push(
                digit_char(((n / 10) % 10) as int),
            ));
            assert(text@ =~= old(text)@ + decimal_text(n as nat));
        }
    } else if n >= 10 {
        push_digit(text, n / 10);
        push_digit(text, n % 10);
        proof {
            assert(decimal_text((n / 10) as nat) =~= seq![digit_char((n / 10) as int)]);
            assert(text@ =~= old(text)@ + decimal_text(n as nat));
        }
    } else {
        push_digit(text, n);
        assert(text@ =~= old(text)@ + decimal_text(n as nat));
    }
}

fn push_comma(text: &mut Vec<char>)
    ensures
        final(text)@ == old(text)@ + seq![',', ' '],
{
    text.push(',');
    text.push(' ');
    assert(text@ =~= old(text)@ + seq![',', ' ']);
}

/// Colours that can be written out.
pub trait DisplayColor {
    /// The colour in the notation `rgb(r, g, b, a)`, as characters.
    fn fmt_rgb(&self) -> Vec<char>;
}

impl DisplayColor for Color {
    fn fmt_rgb(&self) -> (text: Vec<char>)
        ensures
            text@ == spec_fmt_rgb(*self),
    {
        let mut text: Vec<char> = vec!['r', 'g', 'b', '('];
        push_byte(&mut text, self.r());
        push_comma(&mut text);
        push_byte(&mut text, self.g());
        push_comma(&mut text);
        push_byte(&mut text, self.b());
        push_comma(&mut text);
        push_byte(&mut text, self.a());
        text.push(')');
        assert(text@ =~= spec_fmt_rgb(*self));
        text
    }
}

/// What a character does to the depth of grouping: a group's start takes
/// it one deeper, a group's end one back.
pub open spec fn nested(depth: int, c: char, group_start: char, group_end: char) -> int {
    if c == group_start {
        depth + 1
    } else if c == group_end {
        depth - 1
    } else {
        depth
    }
}

/// Where the piece that is being read ends: at the first character from `q`
/// on that separates and stands outside every group, or at the end of the
/// text. `depth` is the depth of grouping before `q`; outside every group
/// it is below zero.
pub open spec fn piece_end(
    s: Seq<char>,
    separates: spec_fn(char) -> bool,
    group_start: char,
    group_end: char,
    q: int,
    depth: int,
) -> int
    decreases s.len() - q,
{
    if q < 0 || q >= s.len() {
        s.len() as int
    } else if separates(s[q]) && depth < 0 {
        q
    } else {
        piece_end(s, separates, group_start, group_end, q + 1, nested(
            depth,
            s[q],
            group_start,
            group_end,
        ))
    }
}

/// The end of the piece that begins at `p` with a character that does not
/// separate.
pub open spec fn piece_from(
    s: Seq<char>,
    separates: spec_fn(char) -> bool,
    group_start: char,
    group_end: char,
    p: int,
) -> int {
    piece_end(s, separates, group_start, group_end, p + 1, nested(
        -1,
        s[p],
        group_start,
        group_end,
    ))
}

/// Whether a character is white space of the first 128 characters.
pub open spec fn is_ascii_space(c: char) -> bool {
    let v = c as u32;
    v == 0x20 || v == 0x09 || v == 0x0a || v == 0x0c || v == 0x0d
}

fn ascii_space(c: char) -> (b: bool)
    ensures
        b == is_ascii_space(c),
{
    let v: u32 = c as u32;
    v == 0x20 || v == 0x09 || v == 0x0a || v == 0x0c || v == 0x0d
}

fn copy_range(s: &Vec<char>, from: usize, to: usize) -> (out: Vec<char>)
    requires
        from <= to <= s.len(),
    ensures
        out@ == s@.subrange(from as int, to as int),
{
    let mut out: Vec<char> = Vec::with_capacity(to - from);
    let mut i: usize = from;
    while i < to
        invariant
            from <= i <= to <= s.len(),
            out@ == s@.subrange(from as int, i as int),
        decreases to - i,
    {
        out.push(s[i]);
        assert(out@ =~= s@.subrange(from as int, i + 1));
        i = i + 1;
    }
    out
}

/// The pieces of a text between the occurrences of a delimiter that stand
/// outside every group, one piece for each call of `next`.
#[derive(Clone, Debug)]
pub struct SplitExcludingGroup {
    pub text: Vec<char>,
    /// How far the text has been read.
    pub position: usize,
    pub delimiter: char,
    pub group_start: char,
    pub group_end: char,
    /// Whether the empty piece after a delimiter at the very end is still
    /// to come.
    pub trailing_empty: bool,
}

impl SplitExcludingGroup {
    /// The read position is inside the text or at its end.
    pub open spec fn wf(&self) -> bool {
        self.position <= self.text@.len()
    }

    /// Where the piece that `next` hands out ends, if the text has not been
    /// read to its end.
    pub open spec fn spec_end(&self) -> int {
        let s = self.text@;
        let p = self.position as int;
        if s[p] == self.delimiter {
            p
        } else {
            piece_from(s, |c: char| c == self.delimiter, self.group_start, self.group_end, p)
        }
    }

    /// The next piece. A delimiter directly at the read position gives an
    /// empty piece; at the end of a text that ends in the delimiter, one
    /// last empty piece is handed out.
    pub fn next(&mut self) -> (piece: Option<Vec<char>>)
        requires
            old(self).wf(),
        ensures
            final(self).wf(),
            final(self).text == old(self).text,
            final(self).delimiter == old(self).delimiter,
            final(self).group_start == old(self).group_start,
            final(self).group_end == old(self).group_end,
            old(self).position < old(self).text@.len() ==> {
                let end = old(self).spec_end();
                &&& old(self).position <= end <= old(self).text@.len()
                &&& piece matches Some(found) && found@ == old(self).text@.subrange(
                    old(self).position as int,
                    end,
                )
                &&& final(self).position == if end < old(self).text@.len() {
                    end + 1
                } else {
                    end
                }
                &&& final(self).trailing_empty == old(self).trailing_empty
            },
            old(self).position == old(self).text@.len() ==> {
                let last = ends_in(old(self).text@, old(self).delimiter) && old(
                    self,
                ).trailing_empty;
                &&& final(self).position == old(self).position
                &&& final(self).trailing_empty == (old(self).trailing_empty && !last)
                &&& if last {
                    piece matches Some(found) && found@ == Seq::<char>::empty()
                } else {
                    piece is None
                }
            },
    {
        let len = self.text.len();
        if self.position >= len {
            if len > 0 && self.text[len - 1] == self.delimiter && self.trailing_empty {
                self.trailing_empty = false;
                return Some(Vec::new());
            }
            return None;
        }
        let start = self.position;
        if self.text[start] == self.delimiter {
            self.position = start + 1;
            let piece: Vec<char> = Vec::new();
            assert(piece@ =~= self.text@.subrange(start as int, start as int));
            return Some(piece);
        }
        let delimiter = self.delimiter;
        let ghost separates = |c: char| c == delimiter;
        let end = scan_piece(&self.text, start, Some(delimiter), self.group_start, self.group_end);
        proof {
            assert(separates =~= (|c: char| c == self.delimiter));
        }
        let piece = copy_range(&self.text, start, end);
        self.position = if end < len {
            end + 1
        } else {
            end
        };
        Some(piece)
    }
}

/// What separates: one delimiter, or any white space of the first 128
/// characters.
pub open spec fn separator(delimiter: Option<char>) -> spec_fn(char) -> bool {
    match delimiter {
        Some(d) => |c: char| c == d,
        None => |c: char| is_ascii_space(c),
    }
}

/// Computes [`piece_from`] for the piece that begins at `start`.
fn scan_piece(
    s: &Vec<char>,
    start: usize,
    delimiter: Option<char>,
    group_start: char,
    group_end: char,
) -> (end: usize)
    requires
        start < s.len(),
    ensures
        start < end <= s.len(),
        end == piece_from(s@, separator(delimiter), group_start, group_end, start as int),
{
    let ghost separates = separator(delimiter);
    let mut depth: i128 = if s[start] == group_start {
        0
    } else if s[start] == group_end {
        -2
    } else {
        -1
    };
    let mut q: usize = start + 1;
    while q < s.len()
        invariant
            start < q <= s.len(),
            separates == separator(delimiter),
            -(q as int) - 2 <= depth <= q,
            piece_from(s@, separates, group_start, group_end, start as int) == piece_end(
                s@,
                separates,
                group_start,
                group_end,
                q as int,
                depth as int,
            ),
        decreases s.len() - q,
    {
        let c: char = s[q];
        let splits = match delimiter {
            Some(d) => c == d,
            None => ascii_space(c),
        };
        assert(splits == separates(c));
        if splits && depth < 0 {
            return q;
        }
        if c == group_start {
            depth = depth + 1;
        } else if c == group_end {
            depth = depth - 1;
        }
        q = q + 1;
    }
    q
}

/// The pieces of a text between runs of white space that stand outside
/// every group, one piece for each call of `next`.
#[derive(Clone, Debug)]
pub struct SplitAsciiWhitespaceExcludingGroup {
    pub text: Vec<char>,
    /// How far the text has been read.
    pub position: usize,
    pub group_start: char,
    pub group_end: char,
}

/// The first index from `i` on that holds no white space of the first 128
/// characters.
pub open spec fn skip_ascii_space(s: Seq<char>, i: int) -> int
    decreases s.len() - i,
{
    if 0 <= i < s.len() && is_ascii_space(s[i]) {
        skip_ascii_space(s, i + 1)
    } else {
        i
    }
}

impl SplitAsciiWhitespaceExcludingGroup {
    /// The read position is inside the text or at its end.
    pub open spec fn wf(&self) -> bool {
        self.position <= self.text@.len()
    }

    /// The next piece: white space at the read position is passed over,
    /// and there is no piece if nothing else is left.
    pub fn next(&mut self) -> (piece: Option<Vec<char>>)
        requires
            old(self).wf(),
        ensures
            final(self).wf(),
            final(self).text == old(self).text,
            final(self).group_start == old(self).group_start,
            final(self).group_end == old(self).group_end,
            ({
                let s = old(self).text@;
                let start = skip_ascii_space(s, old(self).position as int);
                if start >= s.len() {
                    piece is None && final(self).position == s.len()
                } else {
                    let end = piece_from(
                        s,
                        |c: char| is_ascii_space(c),
                        old(self).group_start,
                        old(self).group_end,
                        start,
                    );
                    &&& start < end <= s.len()
                    &&& piece matches Some(found) && found@ == s.subrange(start, end)
                    &&& final(self).position == if end < s.len() {
                        end + 1
                    } else {
                        end
                    }
                }
            }),
    {
        let len = self.text.len();
        let mut start: usize = self.position;
        while start < len && ascii_space(self.text[start])
            invariant
                self.position <= start <= len,
                len == self.text@.len(),
                skip_ascii_space(self.text@, self.position as int) == skip_ascii_space(
                    self.text@,
                    start as int,
                ),
            decreases len - start,
        {
            start = start + 1;
        }
        if start >= len {
            self.position = len;
            return None;
        }
        let end = scan_piece(&self.text, start, None, self.group_start, self.group_end);
        proof {
            assert(separator(None) =~= (|c: char| is_ascii_space(c)));
        }
        let piece = copy_range(&self.text, start, end);
        self.position = if end < len {
            end + 1
        } else {
            end
        };
        Some(piece)
    }
}

/// Texts that can be cut into pieces outside their groups.
pub trait ExtSplit {
    fn split_excluding_group(
        &self,
        delimiter: char,
        group_start: char,
        group_end: char,
    ) -> SplitExcludingGroup;

    fn split_ascii_whitespace_excluding_group(
        &self,
        group_start: char,
        group_end: char,
    ) -> SplitAsciiWhitespaceExcludingGroup;
}

impl ExtSplit for str {
    fn split_excluding_group(&self, delimiter: char, group_start: char, group_end: char) -> (split:
        SplitExcludingGroup)
        ensures
            split.text@ == self@,
            split.position == 0,
            split.delimiter == delimiter,
            split.group_start == group_start,
            split.group_end == group_end,
            split.trailing_empty,
            split.wf(),
    {
        SplitExcludingGroup {
            text: chars_of(self),
            position: 0,
            delimiter,
            group_start,
            group_end,
            trailing_empty: true,
        }
    }

    fn split_ascii_whitespace_excluding_group(&self, group_start: char, group_end: char) -> (split:
        SplitAsciiWhitespaceExcludingGroup)
        ensures
            split.text@ == self@,
            split.position == 0,
            split.group_start == group_start,
            split.group_end == group_end,
            split.wf(),
    {
        SplitAsciiWhitespaceExcludingGroup {
            text: chars_of(self),
            position: 0,
            group_start,
            group_end,
        }
    }
}

} // verus!
