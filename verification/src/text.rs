//! Character-level text utilities: the whitespace predicate, whitespace
//! trimming, and the newline-adjacent trimming applied when pending text is
//! flushed into a text-bearing block context.

use vstd::prelude::*;

verus! {

/// The Unicode whitespace characters (the set recognized by Rust's
/// `char::is_whitespace`).
pub open spec fn is_ws(c: char) -> bool {
    let n = c as u32;
    n == 0x20 || n == 0x9 || n == 0xA || n == 0xD || n == 0xB || n == 0xC || n == 0x85
        || n == 0xA0 || n == 0x1680 || (0x2000 <= n && n <= 0x200A) || n == 0x2028 || n == 0x2029
        || n == 0x202F || n == 0x205F || n == 0x3000
}

/// Executable form of [`is_ws`].
pub fn char_is_ws(c: char) -> (r: bool)
    ensures
        r == is_ws(c),
{
    let n: u32 = c as u32;
    n == 0x20 || n == 0x9 || n == 0xA || n == 0xD || n == 0xB || n == 0xC || n == 0x85
        || n == 0xA0 || n == 0x1680 || (0x2000 <= n && n <= 0x200A) || n == 0x2028 || n == 0x2029
        || n == 0x202F || n == 0x205F || n == 0x3000
}

/// Whether scanning stops at position `i`: a newline or a non-whitespace
/// character stands there.
fn scan_stop(text: &str, i: usize) -> (r: bool)
    requires
        i < text@.len(),
    ensures
        r == (text@[i as int] == '\n' || !is_ws(text@[i as int])),
{
    let c = text.get_char(i);
    c == '\n' || !char_is_ws(c)
}

/// Whether the character at position `i` is whitespace.
fn ws_at(text: &str, i: usize) -> (r: bool)
    requires
        i < text@.len(),
    ensures
        r == is_ws(text@[i as int]),
{
    char_is_ws(text.get_char(i))
}

/// Index of the first character that is a newline or not whitespace;
/// `s.len()` if every character is non-newline whitespace.
pub open spec fn first_stop(s: Seq<char>) -> int
    decreases s.len(),
{
    if s.len() == 0 {
        0
    } else if s[0] == '\n' || !is_ws(s[0]) {
        0
    } else {
        1 + first_stop(s.subrange(1, s.len() as int))
    }
}

/// Index of the last character that is a newline or not whitespace;
/// `-1` if every character is non-newline whitespace.
pub open spec fn last_stop(s: Seq<char>) -> int
    decreases s.len(),
{
    if s.len() == 0 {
        -1
    } else if s[s.len() - 1] == '\n' || !is_ws(s[s.len() - 1]) {
        s.len() - 1
    } else {
        last_stop(s.subrange(0, s.len() - 1))
    }
}

proof fn lemma_first_stop_from_scan(s: Seq<char>, i: int)
    requires
        0 <= i <= s.len(),
        forall|j: int| 0 <= j < i ==> is_ws(#[trigger] s[j]) && s[j] != '\n',
        i < s.len() ==> s[i] == '\n' || !is_ws(s[i]),
    ensures
        first_stop(s) == i,
    decreases s.len(),
{
    if s.len() == 0 {
    } else if s[0] == '\n' || !is_ws(s[0]) {
        assert(i == 0);
    } else {
        let t = s.subrange(1, s.len() as int);
        assert(forall|j: int| 0 <= j < i - 1 ==> #[trigger] t[j] == s[j + 1]);
        assert(i - 1 < t.len() ==> t[i - 1] == s[i]);
        lemma_first_stop_from_scan(t, i - 1);
    }
}

proof fn lemma_last_stop_from_scan(s: Seq<char>, i: int)
    requires
        -1 <= i < s.len(),
        forall|j: int| i < j < s.len() ==> is_ws(#[trigger] s[j]) && s[j] != '\n',
        i >= 0 ==> s[i] == '\n' || !is_ws(s[i]),
    ensures
        last_stop(s) == i,
    decreases s.len(),
{
    if s.len() == 0 {
    } else if s[s.len() - 1] == '\n' || !is_ws(s[s.len() - 1]) {
        assert(i == s.len() - 1);
    } else {
        let t = s.subrange(0, s.len() - 1);
        assert(forall|j: int| i < j < t.len() ==> #[trigger] t[j] == s[j]);
        assert(0 <= i < t.len() ==> t[i] == s[i]);
        lemma_last_stop_from_scan(t, i);
    }
}

/// Where trimming of flushed text starts: just past a newline that is preceded
/// only by whitespace, otherwise the very beginning.
pub open spec fn clean_start(s: Seq<char>) -> int {
    if first_stop(s) < s.len() && s[first_stop(s)] == '\n' {
        first_stop(s) + 1
    } else {
        0
    }
}

/// Where trimming of flushed text ends: at a newline that is followed only by
/// whitespace, otherwise the very end.
pub open spec fn clean_end(s: Seq<char>) -> int {
    if last_stop(s) >= 0 && s[last_stop(s)] == '\n' {
        last_stop(s)
    } else {
        s.len() as int
    }
}

/// Leading/trailing whitespace runs that contain a newline are removed; all
/// other text is kept exactly.
pub open spec fn clean_spec(s: Seq<char>) -> Seq<char> {
    if clean_start(s) > clean_end(s) {
        Seq::empty()
    } else {
        s.subrange(clean_start(s), clean_end(s))
    }
}

/// Removes a leading whitespace run that ends in a newline, and a trailing
/// whitespace run that begins after a newline; other whitespace is kept.
pub fn clean_surrounding_text(text: &str) -> (r: &str)
    ensures
        r@ == clean_spec(text@),
{
    let len: usize = text.unicode_len();

    let mut i: usize = 0;
    while i < len && !scan_stop(text, i)
        invariant
            0 <= i <= len,
            len == text@.len(),
            forall|j: int| 0 <= j < i ==> is_ws(#[trigger] text@[j]) && text@[j] != '\n',
        decreases len - i,
    {
        i += 1;
    }
    proof {
        lemma_first_stop_from_scan(text@, i as int);
    }
    let start: usize = if i < len && text.get_char(i) == '\n' {
        i + 1
    } else {
        0
    };

    let mut k: usize = len;
    while k > 0 && !scan_stop(text, k - 1)
        invariant
            0 <= k <= len,
            len == text@.len(),
            forall|j: int| k <= j < len ==> is_ws(#[trigger] text@[j]) && text@[j] != '\n',
        decreases k,
    {
        k -= 1;
    }
    proof {
        lemma_last_stop_from_scan(text@, k as int - 1);
    }
    let end: usize = if k > 0 && text.get_char(k - 1) == '\n' {
        k - 1
    } else {
        len
    };

    if start > end {
        proof {
            reveal_strlit("");
            assert(""@ =~= Seq::<char>::empty());
        }
        ""
    } else {
        text.substring_char(start, end)
    }
}

/// Index of the first non-whitespace character; `s.len()` if none.
pub open spec fn first_non_ws(s: Seq<char>) -> int
    decreases s.len(),
{
    if s.len() == 0 {
        0
    } else if !is_ws(s[0]) {
        0
    } else {
        1 + first_non_ws(s.subrange(1, s.len() as int))
    }
}

/// One past the index of the last non-whitespace character; `0` if none.
pub open spec fn last_non_ws_end(s: Seq<char>) -> int
    decreases s.len(),
{
    if s.len() == 0 {
        0
    } else if !is_ws(s[s.len() - 1]) {
        s.len() as int
    } else {
        last_non_ws_end(s.subrange(0, s.len() - 1))
    }
}

/// The text with leading and trailing whitespace removed.
pub open spec fn trim_spec(s: Seq<char>) -> Seq<char> {
    if first_non_ws(s) >= last_non_ws_end(s) {
        Seq::empty()
    } else {
        s.subrange(first_non_ws(s), last_non_ws_end(s))
    }
}

/// The text consists of whitespace only.
pub open spec fn all_ws(s: Seq<char>) -> bool {
    forall|j: int| 0 <= j < s.len() ==> is_ws(#[trigger] s[j])
}

proof fn lemma_first_non_ws_from_scan(s: Seq<char>, i: int)
    requires
        0 <= i <= s.len(),
        forall|j: int| 0 <= j < i ==> is_ws(#[trigger] s[j]),
        i < s.len() ==> !is_ws(s[i]),
    ensures
        first_non_ws(s) == i,
    decreases s.len(),
{
    if s.len() == 0 {
    } else if !is_ws(s[0]) {
        assert(i == 0);
    } else {
        let t = s.subrange(1, s.len() as int);
        assert(forall|j: int| 0 <= j < i - 1 ==> #[trigger] t[j] == s[j + 1]);
        assert(i - 1 < t.len() ==> t[i - 1] == s[i]);
        lemma_first_non_ws_from_scan(t, i - 1);
    }
}

proof fn lemma_last_non_ws_end_from_scan(s: Seq<char>, i: int)
    requires
        0 <= i <= s.len(),
        forall|j: int| i <= j < s.len() ==> is_ws(#[trigger] s[j]),
        i > 0 ==> !is_ws(s[i - 1]),
    ensures
        last_non_ws_end(s) == i,
    decreases s.len(),
{
    if s.len() == 0 {
    } else if !is_ws(s[s.len() - 1]) {
        assert(i == s.len());
    } else {
        let t = s.subrange(0, s.len() - 1);
        assert(forall|j: int| i <= j < t.len() ==> #[trigger] t[j] == s[j]);
        assert(0 < i <= t.len() ==> t[i - 1] == s[i - 1]);
        lemma_last_non_ws_end_from_scan(t, i);
    }
}

/// Whitespace-trimming on string slices, with an exact contract.
pub fn trim_str(text: &str) -> (r: &str)
    ensures
        r@ == trim_spec(text@),
{
    let len: usize = text.unicode_len();

    let mut i: usize = 0;
    while i < len && ws_at(text, i)
        invariant
            0 <= i <= len,
            len == text@.len(),
            forall|j: int| 0 <= j < i ==> is_ws(#[trigger] text@[j]),
        decreases len - i,
    {
        i += 1;
    }
    proof {
        lemma_first_non_ws_from_scan(text@, i as int);
    }

    let mut k: usize = len;
    while k > 0 && ws_at(text, k - 1)
        invariant
            0 <= k <= len,
            len == text@.len(),
            forall|j: int| k <= j < len ==> is_ws(#[trigger] text@[j]),
        decreases k,
    {
        k -= 1;
    }
    proof {
        lemma_last_non_ws_end_from_scan(text@, k as int);
    }

    if i >= k {
        proof {
            reveal_strlit("");
            assert(""@ =~= Seq::<char>::empty());
        }
        ""
    } else {
        text.substring_char(i, k)
    }
}

/// String equality, decided character by character.
pub fn str_eq(a: &str, b: &str) -> (r: bool)
    ensures
        r == (a@ == b@),
{
    let alen: usize = a.unicode_len();
    let blen: usize = b.unicode_len();
    if alen != blen {
        return false;
    }
    let mut i: usize = 0;
    while i < alen
        invariant
            0 <= i <= alen,
            alen == a@.len(),
            alen == b@.len(),
            forall|j: int| 0 <= j < i ==> a@[j] == b@[j],
        decreases alen - i,
    {
        if a.get_char(i) != b.get_char(i) {
            return false;
        }
        i += 1;
    }
    proof {
        assert(a@ =~= b@);
    }
    true
}

/// Whether the text consists of whitespace only, with an exact contract.
pub fn str_is_all_ws(text: &str) -> (r: bool)
    ensures
        r == all_ws(text@),
{
    let len: usize = text.unicode_len();
    let mut i: usize = 0;
    while i < len
        invariant
            0 <= i <= len,
            len == text@.len(),
            forall|j: int| 0 <= j < i ==> is_ws(#[trigger] text@[j]),
        decreases len - i,
    {
        if !char_is_ws(text.get_char(i)) {
            return false;
        }
        i += 1;
    }
    true
}

/// ASCII-case-insensitive character equality, by code point.
pub open spec fn char_eq_ic(a: char, b: char) -> bool {
    let x = a as u32;
    let y = b as u32;
    x == y || (0x41 <= x && x <= 0x5A && y == x + 0x20) || (0x41 <= y && y <= 0x5A && x == y
        + 0x20)
}

/// ASCII-case-insensitive string equality.
pub open spec fn str_eq_ic_spec(a: Seq<char>, b: Seq<char>) -> bool {
    a.len() == b.len() && forall|j: int| 0 <= j < a.len() ==> char_eq_ic(a[j], #[trigger] b[j])
}

/// ASCII-case-insensitive string equality, decided character by character.
pub fn str_eq_ignore_ascii_case(a: &str, b: &str) -> (r: bool)
    ensures
        r == str_eq_ic_spec(a@, b@),
{
    let alen: usize = a.unicode_len();
    let blen: usize = b.unicode_len();
    if alen != blen {
        return false;
    }
    let mut i: usize = 0;
    while i < alen
        invariant
            0 <= i <= alen,
            alen == a@.len(),
            alen == b@.len(),
            forall|j: int| 0 <= j < i ==> char_eq_ic(a@[j], #[trigger] b@[j]),
        decreases alen - i,
    {
        let x: u32 = a.get_char(i) as u32;
        let y: u32 = b.get_char(i) as u32;
        let same = x == y || (0x41 <= x && x <= 0x5A && y == x + 0x20) || (0x41 <= y && y <= 0x5A
            && x == y + 0x20);
        if !same {
            return false;
        }
        i += 1;
    }
    true
}

/// Index of the first occurrence of a character; `s.len()` if none.
pub open spec fn find_char(s: Seq<char>, c: char) -> int
    decreases s.len(),
{
    if s.len() == 0 {
        0
    } else if s[0] == c {
        0
    } else {
        1 + find_char(s.subrange(1, s.len() as int), c)
    }
}

pub proof fn lemma_find_char_bounds(s: Seq<char>, c: char)
    ensures
        0 <= find_char(s, c) <= s.len(),
        forall|j: int| 0 <= j < find_char(s, c) ==> #[trigger] s[j] != c,
        find_char(s, c) < s.len() ==> s[find_char(s, c)] == c,
    decreases s.len(),
{
    if s.len() == 0 {
    } else if s[0] == c {
    } else {
        let t = s.subrange(1, s.len() as int);
        lemma_find_char_bounds(t, c);
        assert forall|j: int| 0 <= j < find_char(s, c) implies #[trigger] s[j] != c by {
            if j > 0 {
                assert(t[j - 1] == s[j]);
            }
        }
    }
}

proof fn lemma_find_char_from_scan(s: Seq<char>, c: char, i: int)
    requires
        0 <= i <= s.len(),
        forall|j: int| 0 <= j < i ==> #[trigger] s[j] != c,
        i < s.len() ==> s[i] == c,
    ensures
        find_char(s, c) == i,
    decreases s.len(),
{
    if s.len() == 0 {
    } else if s[0] == c {
        assert(i == 0);
    } else {
        let t = s.subrange(1, s.len() as int);
        assert(forall|j: int| 0 <= j < i - 1 ==> #[trigger] t[j] == s[j + 1]);
        assert(i - 1 < t.len() ==> t[i - 1] == s[i]);
        lemma_find_char_from_scan(t, c, i - 1);
    }
}

/// Position of the first occurrence of a character, or the length if none.
pub fn find_char_at(text: &str, c: char) -> (r: usize)
    ensures
        r == find_char(text@, c),
{
    let len: usize = text.unicode_len();
    let mut i: usize = 0;
    while i < len && text.get_char(i) != c
        invariant
            0 <= i <= len,
            len == text@.len(),
            forall|j: int| 0 <= j < i ==> #[trigger] text@[j] != c,
        decreases len - i,
    {
        i += 1;
    }
    proof {
        lemma_find_char_from_scan(text@, c, i as int);
    }
    i
}

/// Looks up one property in one `name: value` rule; the name is compared
/// ASCII-case-insensitively, the value is kept as written, trimmed.
pub open spec fn rule_value_spec(rule: Seq<char>, prop: Seq<char>) -> Option<Seq<char>> {
    let j = find_char(rule, ':');
    if j == rule.len() {
        Option::None
    } else {
        let name = trim_spec(rule.subrange(0, j));
        let value = trim_spec(rule.subrange(j + 1, rule.len() as int));
        if str_eq_ic_spec(name, prop) {
            Option::Some(value)
        } else {
            Option::None
        }
    }
}

/// The value of the first matching `name: value` rule in a `;`-separated
/// inline style string, if any.
pub open spec fn extract_style_spec(style: Seq<char>, prop: Seq<char>) -> Option<Seq<char>>
    decreases style.len(),
    via extract_style_spec_dec
{
    let i = find_char(style, ';');
    let rule = style.subrange(0, i);
    match rule_value_spec(rule, prop) {
        Option::Some(v) => Option::Some(v),
        Option::None => if i == style.len() {
            Option::None
        } else {
            extract_style_spec(style.subrange(i + 1, style.len() as int), prop)
        },
    }
}

#[via_fn]
proof fn extract_style_spec_dec(style: Seq<char>, prop: Seq<char>) {
    lemma_find_char_bounds(style, ';');
}

/// Scans one rule of a style string for the property.
fn rule_value(rule: &str, prop: &str) -> (r: Option<String>)
    ensures
        crate::model::opt_str_v(r) == rule_value_spec(rule@, prop@),
{
    let len: usize = rule.unicode_len();
    let j = find_char_at(rule, ':');
    proof {
        lemma_find_char_bounds(rule@, ':');
    }
    if j == len {
        Option::None
    } else {
        let name = trim_str(rule.substring_char(0, j));
        let value = trim_str(rule.substring_char(j + 1, len));
        if str_eq_ignore_ascii_case(name, prop) {
            Option::Some(value.to_owned())
        } else {
            Option::None
        }
    }
}

/// Extracts one CSS property's value from an inline `style` attribute string.
/// Rules are separated by `;`, a rule's name and value by the first `:`; the
/// property name is matched ASCII-case-insensitively; the returned value is
/// trimmed and otherwise kept as written.
pub fn extract_style(style: &str, property: &str) -> (r: Option<String>)
    ensures
        crate::model::opt_str_v(r) == extract_style_spec(style@, property@),
    decreases style@.len(),
{
    let len: usize = style.unicode_len();
    let i = find_char_at(style, ';');
    proof {
        lemma_find_char_bounds(style@, ';');
    }
    let rule = style.substring_char(0, i);
    let found = rule_value(rule, property);
    match found {
        Option::Some(v) => Option::Some(v),
        Option::None => {
            if i == len {
                Option::None
            } else {
                extract_style(style.substring_char(i + 1, len), property)
            }
        },
    }
}

} // verus!
