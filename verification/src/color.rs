//! Recognising color arguments: `#rgb` / `#rrggbb` hex forms and a small set
//! of named colors, the names matched without regard to case.

use vstd::prelude::*;
use vstd::utf8::{encode_scalar, encode_utf8, is_ascii_chars, is_ascii_chars_encode_utf8};

verus! {

/// An ASCII hexadecimal digit, as `char::is_ascii_hexdigit` defines it.
pub open spec fn is_hex_digit(c: char) -> bool {
    ('0' <= c && c <= '9') || ('a' <= c && c <= 'f') || ('A' <= c && c <= 'F')
}

/// The named colors, in lower case.
pub open spec fn named_color_list() -> Seq<Seq<char>> {
    seq![
        "white"@,
        "red"@,
        "green"@,
        "blue"@,
        "yellow"@,
        "teal"@,
        "orange"@,
        "purple"@,
        "pink"@,
    ]
}

/// What `str::to_lowercase` returns for a text: its Unicode lower-case form.
pub uninterp spec fn lowercase(s: Seq<char>) -> Seq<char>;

/// A text in the hex form's shape: it starts with `#` and is 4 or 7 bytes long
/// in UTF-8.
pub open spec fn has_hex_shape(s: Seq<char>) -> bool {
    &&& s.len() > 0
    &&& s[0] == '#'
    &&& (encode_utf8(s).len() == 4 || encode_utf8(s).len() == 7)
}

/// Every character after the first is a hex digit.
pub open spec fn hex_digits_after_hash(s: Seq<char>) -> bool {
    forall|i: int| 1 <= i < s.len() ==> #[trigger] is_hex_digit(s[i])
}

/// When an all-ASCII text counts as a color: as [`is_color_text`] says, its
/// lower-case form being its ASCII letters in lower case.
pub open spec fn is_ascii_color_text(s: Seq<char>) -> bool {
    if has_hex_shape(s) {
        hex_digits_after_hash(s)
    } else {
        named_color_list().contains(ascii_lower(s))
    }
}

/// When a text counts as a color: a text of the hex shape is a color exactly when
/// its characters after the `#` are hex digits; any other text is a color when
/// its lower-case form is one of the named colors.
pub open spec fn is_color_text(s: Seq<char>) -> bool {
    if has_hex_shape(s) {
        hex_digits_after_hash(s)
    } else {
        named_color_list().contains(lowercase(s))
    }
}

/// An ASCII character in lower case: `A` to `Z` become `a` to `z`, every other
/// character stays.
pub open spec fn ascii_lower_char(c: char) -> char {
    if 'A' <= c && c <= 'Z' {
        ((c as int) + 32) as char
    } else {
        c
    }
}

/// An ASCII character in upper case: `a` to `z` become `A` to `Z`, every other
/// character stays.
pub open spec fn ascii_upper_char(c: char) -> char {
    if 'a' <= c && c <= 'z' {
        ((c as int) - 32) as char
    } else {
        c
    }
}

/// A text with its ASCII letters in lower case (`str::to_ascii_lowercase`).
pub open spec fn ascii_lower(s: Seq<char>) -> Seq<char> {
    s.map_values(|c: char| ascii_lower_char(c))
}

/// A text with its ASCII letters in upper case (`str::to_ascii_uppercase`).
pub open spec fn ascii_upper(s: Seq<char>) -> Seq<char> {
    s.map_values(|c: char| ascii_upper_char(c))
}

/// Calls `str::to_lowercase`: the result is the lower-case form of `s`, named
/// `lowercase`. Of that form the contract states only what follows from std's
/// documentation of it: lower case is the Unicode lowercase mapping applied to
/// each character in turn (the final-sigma rule, the one context-dependent case,
/// looks only at whether neighbouring letters are cased), as its "HELLO" to
/// "hello" example shows. So an all-ASCII text lower-cases letter by letter; the
/// case of its ASCII letters does not change a text's lower-case form (`A`..`Z`
/// map to `a`..`z`, and ASCII letters are cased either way); and `#`, which has
/// no case, stays where it is. What the mapping does to other characters is not
/// stated.
#[verifier::external_body]
fn to_lowercase(s: &str) -> (r: String)
    ensures
        r@ == lowercase(s@),
        is_ascii_chars(s@) ==> r@ == ascii_lower(s@),
        r@ == lowercase(ascii_upper(s@)),
        r@ == lowercase(ascii_lower(s@)),
        s@.len() > 0 && s@[0] == '#' ==> r@.len() > 0 && r@[0] == '#',
{
    s.to_lowercase()
}

/// Character-wise equality of two texts.
pub fn text_eq(a: &str, b: &str) -> (r: bool)
    ensures
        r == (a@ == b@),
{
    let n = a.unicode_len();
    let m = b.unicode_len();
    if n != m {
        return false;
    }
    let mut i: usize = 0;
    while i < n
        invariant
            n == a@.len(),
            m == b@.len(),
            n == m,
            i <= n,
            forall|j: int| 0 <= j < i ==> a@[j] == b@[j],
        decreases n - i,
    {
        if a.get_char(i) != b.get_char(i) {
            return false;
        }
        i = i + 1;
    }
    assert(a@ =~= b@);
    true
}

fn is_hex_char(c: char) -> (r: bool)
    ensures
        r == is_hex_digit(c),
{
    ('0' <= c && c <= '9') || ('a' <= c && c <= 'f') || ('A' <= c && c <= 'F')
}

/// The named colors, in lower case, in the order the lookup tries them.
pub const NAMED_COLORS: [&'static str; 9] = [
    "white",
    "red",
    "green",
    "blue",
    "yellow",
    "teal",
    "orange",
    "purple",
    "pink",
];

/// Whether `s` is one of the named colors, exactly as written.
pub fn is_named_color(s: &str) -> (r: bool)
    ensures
        r == named_color_list().contains(s@),
{
    let mut i: usize = 0;
    assert(NAMED_COLORS@.map_values(|n: &str| n@) =~= named_color_list());
    while i < 9
        invariant
            i <= 9,
            NAMED_COLORS@.map_values(|n: &str| n@) == named_color_list(),
            forall|j: int| 0 <= j < i ==> named_color_list()[j] != s@,
        decreases 9 - i,
    {
        if text_eq(s, NAMED_COLORS[i]) {
            assert(named_color_list()[i as int] == s@);
            return true;
        }
        i = i + 1;
    }
    false
}

/// Whether a text names a color: `#` followed by 3 or 6 hex digits (the
/// text being 4 or 7 bytes long), or one of the named colors in any case.
/// Changing the case of its ASCII letters never changes the answer.
pub fn is_color(s: &str) -> (r: bool)
    ensures
        r == is_color_text(s@),
        r == ((has_hex_shape(s@) && hex_digits_after_hash(s@)) || named_color_list().contains(
            lowercase(s@),
        )),
        r == is_color_text(ascii_upper(s@)),
        r == is_color_text(ascii_lower(s@)),
        is_ascii_chars(s@) ==> r == is_ascii_color_text(s@),
{
    proof {
        lemma_ascii_case_change(s@, ascii_upper(s@));
        lemma_ascii_case_change(s@, ascii_lower(s@));
        lemma_named_colors_start_with_letters();
    }
    let n = s.unicode_len();
    let byte_len = s.as_bytes().len();
    if n > 0 && s.get_char(0) == '#' && (byte_len == 4 || byte_len == 7) {
        let mut i: usize = 1;
        let mut all_hex = true;
        while i < n
            invariant
                n == s@.len(),
                1 <= i <= n,
                has_hex_shape(s@),
                all_hex ==> forall|j: int| 1 <= j < i ==> #[trigger] is_hex_digit(s@[j]),
                !all_hex ==> !hex_digits_after_hash(s@),
            decreases n - i,
        {
            if !is_hex_char(s.get_char(i)) {
                all_hex = false;
            }
            i = i + 1;
        }
        if all_hex {
            return true;
        }
    }
    // Not a hex color: the lower-case form decides. For a text of the hex
    // shape it starts with `#`, so it is no named color.
    let lower = to_lowercase(s);
    let named = is_named_color(lower.as_str());
    proof {
        if has_hex_shape(s@) && named {
            let k = choose|k: int| 0 <= k < named_color_list().len() && named_color_list()[k] == lower@;
            assert(named_color_list()[k][0] == lower@[0]);
        }
    }
    named
}

/// The named colors are exactly white, red, green, blue, yellow, teal, orange,
/// purple and pink.
pub proof fn law_the_nine_named_colors(s: Seq<char>)
    ensures
        named_color_list().contains(s) <==> (s == "white"@ || s == "red"@ || s == "green"@
            || s == "blue"@ || s == "yellow"@ || s == "teal"@ || s == "orange"@ || s == "purple"@
            || s == "pink"@),
{
    if s == "white"@ || s == "red"@ || s == "green"@ || s == "blue"@ || s == "yellow"@ || s
        == "teal"@ || s == "orange"@ || s == "purple"@ || s == "pink"@ {
        assert(named_color_list()[0] == "white"@);
        assert(named_color_list()[1] == "red"@);
        assert(named_color_list()[2] == "green"@);
        assert(named_color_list()[3] == "blue"@);
        assert(named_color_list()[4] == "yellow"@);
        assert(named_color_list()[5] == "teal"@);
        assert(named_color_list()[6] == "orange"@);
        assert(named_color_list()[7] == "purple"@);
        assert(named_color_list()[8] == "pink"@);
    }
}

/// The hex digits are exactly `0` to `9`, `a` to `f` and `A` to `F`.
pub proof fn law_hex_digits_are_the_ascii_ranges(c: char)
    ensures
        is_hex_digit(c) <==> (('0' <= c && c <= '9') || ('a' <= c && c <= 'f') || ('A' <= c
            && c <= 'F')),
{
}

/// `#` followed by six decimal digits (a gray such as `#808080`) is a color.
pub proof fn law_decimal_hex_forms_are_colors(s: Seq<char>)
    requires
        s.len() == 7,
        s[0] == '#',
        forall|i: int| 1 <= i < 7 ==> '0' <= #[trigger] s[i] && s[i] <= '9',
    ensures
        is_color_text(s),
{
    assert forall|i: int| 1 <= i < s.len() implies #[trigger] is_hex_digit(s[i]) by {
        assert('0' <= s[i] && s[i] <= '9');
    }
    law_hex_forms_are_colors(s);
}

/// Every `#` followed by three or six hex digits, in either case, is a color.
pub proof fn law_hex_forms_are_colors(s: Seq<char>)
    requires
        s.len() == 4 || s.len() == 7,
        s[0] == '#',
        forall|i: int| 1 <= i < s.len() ==> #[trigger] is_hex_digit(s[i]),
    ensures
        is_color_text(s),
{
    assert(is_ascii_chars(s)) by {
        assert forall|i: int| 0 <= i < s.len() implies '\0' <= #[trigger] s[i] <= '\u{7f}' by {
            if i > 0 {
                assert(is_hex_digit(s[i]));
            }
        }
    }
    is_ascii_chars_encode_utf8(s);
}

/// Color names do not depend on case: two texts that are not of the hex shape
/// and have the same lower-case form are both colors or both not.
pub proof fn law_names_ignore_case(a: Seq<char>, b: Seq<char>)
    requires
        !has_hex_shape(a),
        !has_hex_shape(b),
        lowercase(a) == lowercase(b),
    ensures
        is_color_text(a) == is_color_text(b),
{
}

proof fn lemma_named_colors_start_with_letters()
    ensures
        forall|i: int|
            0 <= i < named_color_list().len() ==> named_color_list()[i].len() > 0
                && 'a' <= #[trigger] named_color_list()[i][0] <= 'z',
{
    reveal_strlit("white");
    reveal_strlit("red");
    reveal_strlit("green");
    reveal_strlit("blue");
    reveal_strlit("yellow");
    reveal_strlit("teal");
    reveal_strlit("orange");
    reveal_strlit("purple");
    reveal_strlit("pink");
}

/// For an all-ASCII text, being a color is being `#` and hex digits of the hex
/// shape, or lower-casing to a named color: the two tests never disagree, since
/// no named color starts with `#`.
pub proof fn law_ascii_color_is_hex_or_named(s: Seq<char>)
    requires
        is_ascii_chars(s),
    ensures
        is_ascii_color_text(s) == ((has_hex_shape(s) && hex_digits_after_hash(s))
            || named_color_list().contains(ascii_lower(s))),
{
    if has_hex_shape(s) && named_color_list().contains(ascii_lower(s)) {
        lemma_named_colors_start_with_letters();
        let i = choose|i: int| 0 <= i < named_color_list().len() && named_color_list()[i] == ascii_lower(s);
        assert(named_color_list()[i][0] == ascii_lower(s)[0]);
        assert(ascii_lower(s)[0] == '#');
    }
}

/// The UTF-8 length of a text does not change when some of its ASCII letters
/// are replaced by other ASCII letters.
proof fn lemma_encode_len_same(s: Seq<char>, t: Seq<char>)
    requires
        t.len() == s.len(),
        forall|i: int|
            0 <= i < s.len() ==> #[trigger] t[i] == s[i] || ('A' <= s[i] <= 'z' && 'A' <= t[i] <= 'z'),
    ensures
        encode_utf8(t).len() == encode_utf8(s).len(),
    decreases s.len(),
{
    if s.len() > 0 {
        assert(t[0] == s[0] || ('A' <= s[0] <= 'z' && 'A' <= t[0] <= 'z'));
        assert forall|i: int| 0 <= i < s.drop_first().len() implies #[trigger] t.drop_first()[i]
            == s.drop_first()[i] || ('A' <= s.drop_first()[i] <= 'z' && 'A' <= t.drop_first()[i]
            <= 'z') by {
            assert(t[i + 1] == s[i + 1] || ('A' <= s[i + 1] <= 'z' && 'A' <= t[i + 1] <= 'z'));
        }
        lemma_encode_len_same(s.drop_first(), t.drop_first());
        if t[0] != s[0] {
            let c = seq![s[0]];
            let d = seq![t[0]];
            assert(is_ascii_chars(c)) by {
                assert(c[0] == s[0]);
            }
            assert(is_ascii_chars(d)) by {
                assert(d[0] == t[0]);
            }
            is_ascii_chars_encode_utf8(c);
            is_ascii_chars_encode_utf8(d);
            assert(c.drop_first() =~= Seq::<char>::empty());
            assert(d.drop_first() =~= Seq::<char>::empty());
            assert(encode_utf8(c) =~= encode_scalar(s[0] as u32) + encode_utf8(Seq::<char>::empty()));
            assert(encode_utf8(d) =~= encode_scalar(t[0] as u32) + encode_utf8(Seq::<char>::empty()));
        }
        assert(encode_utf8(s).len() == encode_scalar(s[0] as u32).len() + encode_utf8(s.drop_first()).len());
        assert(encode_utf8(t).len() == encode_scalar(t[0] as u32).len() + encode_utf8(t.drop_first()).len());
    }
}

/// What a change of ASCII letter case keeps: the hex shape, the hex digits, the
/// ASCII lower-case form, and ASCII-ness.
proof fn lemma_ascii_case_change(s: Seq<char>, t: Seq<char>)
    requires
        t.len() == s.len(),
        forall|i: int| 0 <= i < s.len() ==> #[trigger] t[i] == ascii_upper_char(s[i]) || t[i] == ascii_lower_char(s[i]),
    ensures
        is_ascii_chars(s) ==> is_ascii_chars(t),
        ascii_lower(t) == ascii_lower(s),
        has_hex_shape(t) == has_hex_shape(s),
        hex_digits_after_hash(t) == hex_digits_after_hash(s),
{
    if is_ascii_chars(s) {
        assert forall|i: int| 0 <= i < t.len() implies '\0' <= #[trigger] t[i] <= '\u{7f}' by {
            assert('\0' <= s[i] <= '\u{7f}');
            assert(t[i] == ascii_upper_char(s[i]) || t[i] == ascii_lower_char(s[i]));
        }
    }
    assert(ascii_lower(t) =~= ascii_lower(s)) by {
        assert forall|i: int| 0 <= i < s.len() implies #[trigger] ascii_lower(t)[i] == ascii_lower(s)[i] by {
            assert(t[i] == ascii_upper_char(s[i]) || t[i] == ascii_lower_char(s[i]));
        }
    }
    assert forall|i: int| 0 <= i < s.len() implies #[trigger] t[i] == s[i] || ('A' <= s[i] <= 'z'
        && 'A' <= t[i] <= 'z') by {
        assert(t[i] == ascii_upper_char(s[i]) || t[i] == ascii_lower_char(s[i]));
    }
    lemma_encode_len_same(s, t);
    if s.len() > 0 {
        assert(t[0] == ascii_upper_char(s[0]) || t[0] == ascii_lower_char(s[0]));
    }
    assert(hex_digits_after_hash(t) == hex_digits_after_hash(s)) by {
        if hex_digits_after_hash(s) {
            assert forall|i: int| 1 <= i < t.len() implies #[trigger] is_hex_digit(t[i]) by {
                assert(is_hex_digit(s[i]));
                assert(t[i] == ascii_upper_char(s[i]) || t[i] == ascii_lower_char(s[i]));
            }
        }
        if hex_digits_after_hash(t) {
            assert forall|i: int| 1 <= i < s.len() implies #[trigger] is_hex_digit(s[i]) by {
                assert(is_hex_digit(t[i]));
                assert(t[i] == ascii_upper_char(s[i]) || t[i] == ascii_lower_char(s[i]));
            }
        }
    }
}

/// Changing the case of the letters of an all-ASCII text, to upper or to lower
/// case, never changes whether it is a color: neither for hex digits nor for
/// color names.
pub proof fn law_ascii_case_does_not_matter(s: Seq<char>)
    requires
        is_ascii_chars(s),
    ensures
        is_ascii_chars(ascii_upper(s)),
        is_ascii_chars(ascii_lower(s)),
        is_ascii_color_text(ascii_upper(s)) == is_ascii_color_text(s),
        is_ascii_color_text(ascii_lower(s)) == is_ascii_color_text(s),
{
    lemma_ascii_case_change(s, ascii_upper(s));
    lemma_ascii_case_change(s, ascii_lower(s));
}

} // verus!
